use vstd::prelude::*;
use crate::executor::Platform;

verus! {

/// The name a platform is announced under.
pub open spec fn platform_name(p: Platform) -> Seq<char> {
    match p {
        Platform::Windows => seq!['W', 'i', 'n', 'd', 'o', 'w', 's'],
        Platform::MacOs => seq!['m', 'a', 'c', 'O', 'S'],
        Platform::Linux => seq!['L', 'i', 'n', 'u', 'x'],
    }
}

/// The line announcing text typed on a platform: `Typing on <platform>: <text>`.
pub open spec fn typing_line(p: Platform, text: Seq<char>) -> Seq<char> {
    seq!['T', 'y', 'p', 'i', 'n', 'g', ' ', 'o', 'n', ' '] + platform_name(p) + seq![':', ' ']
        + text
}

/// Simulated typing: produces the announcement that the caller prints before
/// pausing.
pub struct TypingSimulator {
    platform: Platform,
}

impl TypingSimulator {
    /// A simulator for the given platform.
    pub fn new(platform: Platform) -> (r: Self)
        ensures
            r.platform() == platform,
    {
        TypingSimulator { platform }
    }

    /// The platform this simulator types on.
    pub closed spec fn platform(&self) -> Platform {
        self.platform
    }

    /// Types `text`: returns the line to announce; it never fails.
    pub fn type_text(&self, text: &str) -> (r: Result<String, String>)
        ensures
            r matches Ok(line) && line@ == typing_line(self.platform(), text@),
    {
        let mut line = String::from_str("Typing on ");
        match self.platform {
            Platform::Windows => line.append("Windows"),
            Platform::MacOs => line.append("macOS"),
            Platform::Linux => line.append("Linux"),
        }
        line.append(": ");
        line.append(text);
        proof {
            reveal_strlit("Typing on ");
            reveal_strlit("Windows");
            reveal_strlit("macOS");
            reveal_strlit("Linux");
            reveal_strlit(": ");
            assert(line@ =~= typing_line(self.platform, text@));
        }
        Ok(line)
    }
}

} // verus!
