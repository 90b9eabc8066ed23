//! Sound effects: which effects the game plays and the file each one loads.
//! Playback is the host's; a missing file degrades to silence.

use vstd::prelude::*;

verus! {

#[derive(Debug, Clone, Copy, PartialEq, Eq, Hash, Structural)]
pub enum Sfx {
    /// UI confirm / menu selection.
    Select,
    /// A weapon or natural attack lands.
    Hit,
    /// A core is cracked — capture, yield, or freed.
    Crack,
    /// A limb is severed.
    Sever,
    /// The rider hops to another mount.
    Hop,
    /// An action was refused (out of vigor, on cooldown, illegal).
    Deny,
    /// A graft is rejected or the creature goes berserk.
    Reject,
}

impl Sfx {
    /// The sound file this effect loads.
    pub fn file(self) -> (r: &'static str)
        ensures
            r@ == match self {
                Sfx::Select => "assets/sfx/select.wav"@,
                Sfx::Hit => "assets/sfx/hit.wav"@,
                Sfx::Crack => "assets/sfx/crack.wav"@,
                Sfx::Sever => "assets/sfx/sever.wav"@,
                Sfx::Hop => "assets/sfx/hop.wav"@,
                Sfx::Deny => "assets/sfx/deny.wav"@,
                Sfx::Reject => "assets/sfx/reject.wav"@,
            },
    {
        match self {
            Sfx::Select => "assets/sfx/select.wav",
            Sfx::Hit => "assets/sfx/hit.wav",
            Sfx::Crack => "assets/sfx/crack.wav",
            Sfx::Sever => "assets/sfx/sever.wav",
            Sfx::Hop => "assets/sfx/hop.wav",
            Sfx::Deny => "assets/sfx/deny.wav",
            Sfx::Reject => "assets/sfx/reject.wav",
        }
    }

    /// How loud this effect plays, in percent of the bank's volume. Hits are
    /// trimmed so that a rapid flurry does not overpower the rest.
    pub fn volume_percent(self) -> (r: u32)
        ensures
            r == match self {
                Sfx::Hit => 50u32,
                Sfx::Select => 70u32,
                Sfx::Crack => 90u32,
                _ => 80u32,
            },
    {
        match self {
            Sfx::Hit => 50,
            Sfx::Select => 70,
            Sfx::Crack => 90,
            _ => 80,
        }
    }

    /// Every effect, in bank order.
    pub fn all() -> (r: [Sfx; 7])
        ensures
            r@ == seq![Sfx::Select, Sfx::Hit, Sfx::Crack, Sfx::Sever, Sfx::Hop, Sfx::Deny, Sfx::Reject],
    {
        let r = [Sfx::Select, Sfx::Hit, Sfx::Crack, Sfx::Sever, Sfx::Hop, Sfx::Deny, Sfx::Reject];
        assert(r@ =~= seq![Sfx::Select, Sfx::Hit, Sfx::Crack, Sfx::Sever, Sfx::Hop, Sfx::Deny, Sfx::Reject]);
        r
    }
}

} // verus!
