use vstd::prelude::*;

verus! {

/// One classified line read from a device's serial console.
#[derive(Clone, Copy, Debug, PartialEq, Eq, Structural)]
pub enum Response {
    PasswordPrompt,
    LoginPrompt,
    ShellPrompt,
    DebugMenuReady,
    DebugMenuWithContinuedMessage,
    BPOn,
    BPOff,
    TempSuccess,
    TempFailed,
    Rebooting,
    Other,
    Empty,
}

/// One command line written to a device's serial console.
#[derive(Clone, Copy, Debug, PartialEq, Eq, Structural)]
pub enum Command {
    Newline,
    Login,
    DebugMenu,
    LifecycleMenu,
    BrightnessMenu,
    UpMenuLevel,
    Quit,
    StartBP,
    CheckBPState,
    ReadTemp,
    BrightnessHigh,
    BrightnessLow,
}

/// The substrings that the classification looks for.
#[derive(Clone, Copy, Debug, PartialEq, Eq, Structural)]
pub enum Marker {
    Login,
    Password,
    Shell,
    DebugMenu,
    BannerEnd,
    Continued,
    BpOn,
    BpOff,
    TempOk,
    TempFail,
    Rebooting,
}

pub open spec fn marker_text(m: Marker) -> Seq<u8> {
    match m {
        Marker::Login => seq![108u8, 111u8, 103u8, 105u8, 110u8, 58u8],  // "login:"
        Marker::Password => seq![80u8, 97u8, 115u8, 115u8, 119u8, 111u8, 114u8, 100u8, 58u8],  // "Password:"
        Marker::Shell => seq![36u8],  // "$"
        Marker::DebugMenu => seq![68u8, 101u8, 98u8, 117u8, 103u8, 32u8, 109u8, 101u8, 110u8, 117u8],  // "Debug menu"
        Marker::BannerEnd => seq![93u8],  // "]"
        Marker::Continued => seq![46u8, 46u8, 46u8],  // "..."
        Marker::BpOn => seq![66u8, 80u8, 32u8, 105u8, 115u8, 32u8, 111u8, 110u8],  // "BP is on"
        Marker::BpOff => seq![66u8, 80u8, 32u8, 105u8, 115u8, 32u8, 111u8, 102u8, 102u8],  // "BP is off"
        Marker::TempOk => seq![84u8, 101u8, 109u8, 112u8, 32u8, 79u8, 75u8],  // "Temp OK"
        Marker::TempFail => seq![84u8, 101u8, 109u8, 112u8, 32u8, 70u8, 65u8, 73u8, 76u8],  // "Temp FAIL"
        Marker::Rebooting => seq![82u8, 101u8, 98u8, 111u8, 111u8, 116u8, 105u8, 110u8, 103u8],  // "Rebooting"
    }
}

/// The bytes of a marker.
pub fn marker_bytes(m: Marker) -> (r: Vec<u8>)
    ensures
        r@ == marker_text(m),
{
    let r = match m {
        Marker::Login => vec![108u8, 111u8, 103u8, 105u8, 110u8, 58u8],  // "login:"
        Marker::Password => vec![80u8, 97u8, 115u8, 115u8, 119u8, 111u8, 114u8, 100u8, 58u8],  // "Password:"
        Marker::Shell => vec![36u8],  // "$"
        Marker::DebugMenu => vec![68u8, 101u8, 98u8, 117u8, 103u8, 32u8, 109u8, 101u8, 110u8, 117u8],  // "Debug menu"
        Marker::BannerEnd => vec![93u8],  // "]"
        Marker::Continued => vec![46u8, 46u8, 46u8],  // "..."
        Marker::BpOn => vec![66u8, 80u8, 32u8, 105u8, 115u8, 32u8, 111u8, 110u8],  // "BP is on"
        Marker::BpOff => vec![66u8, 80u8, 32u8, 105u8, 115u8, 32u8, 111u8, 102u8, 102u8],  // "BP is off"
        Marker::TempOk => vec![84u8, 101u8, 109u8, 112u8, 32u8, 79u8, 75u8],  // "Temp OK"
        Marker::TempFail => vec![84u8, 101u8, 109u8, 112u8, 32u8, 70u8, 65u8, 73u8, 76u8],  // "Temp FAIL"
        Marker::Rebooting => vec![82u8, 101u8, 98u8, 111u8, 111u8, 116u8, 105u8, 110u8, 103u8],  // "Rebooting"
    };
    assert(r@ =~= marker_text(m));
    r
}

/// The position of a marker in a firmware's table.
pub open spec fn marker_slot(m: Marker) -> int {
    match m {
        Marker::Login => 0,
        Marker::Password => 1,
        Marker::Shell => 2,
        Marker::DebugMenu => 3,
        Marker::BannerEnd => 4,
        Marker::Continued => 5,
        Marker::BpOn => 6,
        Marker::BpOff => 7,
        Marker::TempOk => 8,
        Marker::TempFail => 9,
        Marker::Rebooting => 10,
    }
}

/// The position of a command in a firmware's table.
pub open spec fn glyph_slot(c: Command) -> int {
    match c {
        Command::Newline => 0,
        Command::Login => 1,
        Command::DebugMenu => 2,
        Command::LifecycleMenu => 3,
        Command::BrightnessMenu => 4,
        Command::UpMenuLevel => 5,
        Command::Quit => 6,
        Command::StartBP => 7,
        Command::CheckBPState => 8,
        Command::ReadTemp => 9,
        Command::BrightnessHigh => 10,
        Command::BrightnessLow => 11,
    }
}

fn marker_slot_exec(m: Marker) -> (r: usize)
    ensures
        r == marker_slot(m),
{
    match m {
        Marker::Login => 0,
        Marker::Password => 1,
        Marker::Shell => 2,
        Marker::DebugMenu => 3,
        Marker::BannerEnd => 4,
        Marker::Continued => 5,
        Marker::BpOn => 6,
        Marker::BpOff => 7,
        Marker::TempOk => 8,
        Marker::TempFail => 9,
        Marker::Rebooting => 10,
    }
}

fn glyph_slot_exec(c: Command) -> (r: usize)
    ensures
        r == glyph_slot(c),
{
    match c {
        Command::Newline => 0,
        Command::Login => 1,
        Command::DebugMenu => 2,
        Command::LifecycleMenu => 3,
        Command::BrightnessMenu => 4,
        Command::UpMenuLevel => 5,
        Command::Quit => 6,
        Command::StartBP => 7,
        Command::CheckBPState => 8,
        Command::ReadTemp => 9,
        Command::BrightnessHigh => 10,
        Command::BrightnessLow => 11,
    }
}

/// The texts a device's firmware uses: the markers that its console lines are
/// classified by, and the text of each command.
#[derive(Clone, Debug)]
pub struct Firmware {
    markers: Vec<Vec<u8>>,
    glyphs: Vec<Vec<u8>>,
}

impl Firmware {
    /// One text for each marker and one for each command.
    pub closed spec fn wf(&self) -> bool {
        self.markers@.len() == 11 && self.glyphs@.len() == 12
    }

    pub closed spec fn marker_spec(&self, m: Marker) -> Seq<u8> {
        self.markers@[marker_slot(m)]@
    }

    pub closed spec fn glyph_spec(&self, c: Command) -> Seq<u8> {
        self.glyphs@[glyph_slot(c)]@
    }

    /// The texts of the standard firmware.
    pub fn standard() -> (r: Firmware)
        ensures
            r.wf(),
            forall|m: Marker| #[trigger] r.marker_spec(m) == marker_text(m),
            forall|c: Command| #[trigger] r.glyph_spec(c) == glyph(c),
    {
        let mut markers: Vec<Vec<u8>> = Vec::new();
        markers.push(marker_bytes(Marker::Login));
        markers.push(marker_bytes(Marker::Password));
        markers.push(marker_bytes(Marker::Shell));
        markers.push(marker_bytes(Marker::DebugMenu));
        markers.push(marker_bytes(Marker::BannerEnd));
        markers.push(marker_bytes(Marker::Continued));
        markers.push(marker_bytes(Marker::BpOn));
        markers.push(marker_bytes(Marker::BpOff));
        markers.push(marker_bytes(Marker::TempOk));
        markers.push(marker_bytes(Marker::TempFail));
        markers.push(marker_bytes(Marker::Rebooting));
        let mut glyphs: Vec<Vec<u8>> = Vec::new();
        glyphs.push(glyph_bytes(Command::Newline));
        glyphs.push(glyph_bytes(Command::Login));
        glyphs.push(glyph_bytes(Command::DebugMenu));
        glyphs.push(glyph_bytes(Command::LifecycleMenu));
        glyphs.push(glyph_bytes(Command::BrightnessMenu));
        glyphs.push(glyph_bytes(Command::UpMenuLevel));
        glyphs.push(glyph_bytes(Command::Quit));
        glyphs.push(glyph_bytes(Command::StartBP));
        glyphs.push(glyph_bytes(Command::CheckBPState));
        glyphs.push(glyph_bytes(Command::ReadTemp));
        glyphs.push(glyph_bytes(Command::BrightnessHigh));
        glyphs.push(glyph_bytes(Command::BrightnessLow));
        Firmware { markers, glyphs }
    }

    /// A firmware with the given texts: `markers` in the order of `Marker`,
    /// `glyphs` in the order of `Command`. Nothing when a count is wrong.
    pub fn new(markers: Vec<Vec<u8>>, glyphs: Vec<Vec<u8>>) -> (r: Option<Firmware>)
        ensures
            r is Some <==> (markers@.len() == 11 && glyphs@.len() == 12),
            r matches Some(f) ==> f.wf() && (forall|m: Marker| #[trigger] f.marker_spec(m)
                == markers@[marker_slot(m)]@) && (forall|c: Command| #[trigger] f.glyph_spec(c)
                == glyphs@[glyph_slot(c)]@),
    {
        if markers.len() == 11 && glyphs.len() == 12 {
            Some(Firmware { markers, glyphs })
        } else {
            None
        }
    }

    /// The text of a marker.
    pub fn marker(&self, m: Marker) -> (r: &Vec<u8>)
        requires
            self.wf(),
        ensures
            r@ == self.marker_spec(m),
    {
        &self.markers[marker_slot_exec(m)]
    }

    /// The text of a command, before its line terminator.
    pub fn glyph(&self, c: Command) -> (r: &Vec<u8>)
        requires
            self.wf(),
        ensures
            r@ == self.glyph_spec(c),
    {
        &self.glyphs[glyph_slot_exec(c)]
    }
}

/// `p` occurs in `s` at position `i`.
pub open spec fn occurs_at(s: Seq<u8>, p: Seq<u8>, i: int) -> bool {
    0 <= i && i + p.len() <= s.len() && s.subrange(i, i + p.len()) == p
}

pub open spec fn contains(s: Seq<u8>, p: Seq<u8>) -> bool {
    exists|i: int| occurs_at(s, p, i)
}

pub open spec fn has(s: Seq<u8>, m: Marker, fw: Firmware) -> bool {
    contains(s, fw.marker_spec(m))
}

/// A byte that is removed from a line before it is classified.
pub open spec fn is_control(b: u8) -> bool {
    b < 0x20 || b == 0x7f
}

/// A line with its control bytes removed.
pub open spec fn strip_controls(s: Seq<u8>) -> Seq<u8>
    decreases s.len(),
{
    if s.len() == 0 {
        Seq::empty()
    } else {
        let rest = strip_controls(s.drop_last());
        if is_control(s.last()) {
            rest
        } else {
            rest.push(s.last())
        }
    }
}

pub open spec fn is_blank(s: Seq<u8>) -> bool {
    forall|i: int| 0 <= i < s.len() ==> s[i] == 32u8
}

/// The response class of a line whose control bytes are already removed;
/// the first rule that matches decides.
pub open spec fn classify_clean(s: Seq<u8>, fw: Firmware) -> Response {
    if has(s, Marker::Login, fw) {
        Response::LoginPrompt
    } else if has(s, Marker::Password, fw) {
        Response::PasswordPrompt
    } else if has(s, Marker::Shell, fw) {
        Response::ShellPrompt
    } else if has(s, Marker::DebugMenu, fw) && has(s, Marker::BannerEnd, fw) {
        Response::DebugMenuReady
    } else if has(s, Marker::DebugMenu, fw) && has(s, Marker::Continued, fw) {
        Response::DebugMenuWithContinuedMessage
    } else if has(s, Marker::BpOn, fw) {
        Response::BPOn
    } else if has(s, Marker::BpOff, fw) {
        Response::BPOff
    } else if has(s, Marker::TempOk, fw) {
        Response::TempSuccess
    } else if has(s, Marker::TempFail, fw) {
        Response::TempFailed
    } else if has(s, Marker::Rebooting, fw) {
        Response::Rebooting
    } else if is_blank(s) {
        Response::Empty
    } else {
        Response::Other
    }
}

pub open spec fn classify_spec(line: Seq<u8>, fw: Firmware) -> Response {
    classify_clean(strip_controls(line), fw)
}

/// Whether `p` occurs in `s`.
pub fn contains_bytes(s: &[u8], p: &[u8]) -> (r: bool)
    ensures
        r == contains(s@, p@),
{
    if p.len() > s.len() {
        assert forall|i: int| !occurs_at(s@, p@, i) by {}
        return false;
    }
    let last: usize = s.len() - p.len();
    let mut i: usize = 0;
    while i <= last
        invariant
            last == s.len() - p.len(),
            p.len() <= s.len(),
            forall|k: int| 0 <= k < i ==> !occurs_at(s@, p@, k),
        decreases last + 1 - i,
    {
        let mut j: usize = 0;
        let mut same: bool = true;
        while j < p.len()
            invariant
                i <= last,
                last == s.len() - p.len(),
                j <= p.len(),
                same == (forall|k: int| 0 <= k < j ==> s@[i + k] == p@[k]),
            decreases p.len() - j,
        {
            if s[i + j] != p[j] {
                same = false;
            }
            j = j + 1;
        }
        if same {
            assert(s@.subrange(i as int, i + p.len()) =~= p@);
            assert(occurs_at(s@, p@, i as int));
            return true;
        }
        assert(!occurs_at(s@, p@, i as int)) by {
            let k = choose|k: int| 0 <= k < p.len() && s@[i + k] != p@[k];
            assert(s@.subrange(i as int, i + p.len())[k] != p@[k]);
        }
        i = i + 1;
    }
    false
}

fn has_marker(s: &[u8], m: Marker, fw: &Firmware) -> (r: bool)
    requires
        fw.wf(),
    ensures
        r == has(s@, m, *fw),
{
    contains_bytes(s, fw.marker(m).as_slice())
}

/// The line without its control bytes.
pub fn strip_control_bytes(line: &[u8]) -> (r: Vec<u8>)
    ensures
        r@ == strip_controls(line@),
{
    let mut out: Vec<u8> = Vec::new();
    let mut i: usize = 0;
    while i < line.len()
        invariant
            i <= line.len(),
            out@ == strip_controls(line@.subrange(0, i as int)),
        decreases line.len() - i,
    {
        let b = line[i];
        assert(line@.subrange(0, i + 1).drop_last() =~= line@.subrange(0, i as int));
        if !(b < 0x20 || b == 0x7f) {
            out.push(b);
        }
        i = i + 1;
    }
    assert(line@.subrange(0, line@.len() as int) =~= line@);
    out
}

fn blank(s: &[u8]) -> (r: bool)
    ensures
        r == is_blank(s@),
{
    let mut i: usize = 0;
    while i < s.len()
        invariant
            i <= s.len(),
            forall|k: int| 0 <= k < i ==> s@[k] == 32u8,
        decreases s.len() - i,
    {
        if s[i] != 32u8 {
            return false;
        }
        i = i + 1;
    }
    true
}

/// Classifies one line read from a device: control bytes are removed, then
/// the first of the firmware's markers found decides; a blank line is `Empty`, any other `Other`.
pub fn classify(line: &[u8], fw: &Firmware) -> (r: Response)
    requires
        fw.wf(),
    ensures
        r == classify_spec(line@, *fw),
{
    let v = strip_control_bytes(line);
    let s = v.as_slice();
    if has_marker(s, Marker::Login, fw) {
        Response::LoginPrompt
    } else if has_marker(s, Marker::Password, fw) {
        Response::PasswordPrompt
    } else if has_marker(s, Marker::Shell, fw) {
        Response::ShellPrompt
    } else if has_marker(s, Marker::DebugMenu, fw) && has_marker(s, Marker::BannerEnd, fw) {
        Response::DebugMenuReady
    } else if has_marker(s, Marker::DebugMenu, fw) && has_marker(s, Marker::Continued, fw) {
        Response::DebugMenuWithContinuedMessage
    } else if has_marker(s, Marker::BpOn, fw) {
        Response::BPOn
    } else if has_marker(s, Marker::BpOff, fw) {
        Response::BPOff
    } else if has_marker(s, Marker::TempOk, fw) {
        Response::TempSuccess
    } else if has_marker(s, Marker::TempFail, fw) {
        Response::TempFailed
    } else if has_marker(s, Marker::Rebooting, fw) {
        Response::Rebooting
    } else if blank(s) {
        Response::Empty
    } else {
        Response::Other
    }
}

/// The text that a command sends, before its line terminator.
pub open spec fn glyph(c: Command) -> Seq<u8> {
    match c {
        Command::Newline => seq![],
        Command::Login => seq![114u8, 111u8, 111u8, 116u8],  // "root"
        Command::DebugMenu => seq![100u8, 101u8, 98u8, 117u8, 103u8],  // "debug"
        Command::LifecycleMenu => seq![49u8],  // "1"
        Command::BrightnessMenu => seq![50u8],  // "2"
        Command::UpMenuLevel => seq![113u8],  // "q"
        Command::Quit => seq![113u8, 117u8, 105u8, 116u8],  // "quit"
        Command::StartBP => seq![98u8],  // "b"
        Command::CheckBPState => seq![115u8],  // "s"
        Command::ReadTemp => seq![116u8],  // "t"
        Command::BrightnessHigh => seq![104u8],  // "h"
        Command::BrightnessLow => seq![108u8],  // "l"
    }
}

/// The whole line that a command sends: its text, then CR and LF.
pub open spec fn command_line(c: Command, fw: Firmware) -> Seq<u8> {
    fw.glyph_spec(c) + seq![13u8, 10u8]  // "\r\n"
}

/// The standard text of a command.
pub fn glyph_bytes(c: Command) -> (r: Vec<u8>)
    ensures
        r@ == glyph(c),
{
    let r = match c {
        Command::Newline => vec![],
        Command::Login => vec![114u8, 111u8, 111u8, 116u8],  // "root"
        Command::DebugMenu => vec![100u8, 101u8, 98u8, 117u8, 103u8],  // "debug"
        Command::LifecycleMenu => vec![49u8],  // "1"
        Command::BrightnessMenu => vec![50u8],  // "2"
        Command::UpMenuLevel => vec![113u8],  // "q"
        Command::Quit => vec![113u8, 117u8, 105u8, 116u8],  // "quit"
        Command::StartBP => vec![98u8],  // "b"
        Command::CheckBPState => vec![115u8],  // "s"
        Command::ReadTemp => vec![116u8],  // "t"
        Command::BrightnessHigh => vec![104u8],  // "h"
        Command::BrightnessLow => vec![108u8],  // "l"
    };
    assert(r@ =~= glyph(c));
    r
}

/// The bytes written to the device for a command.
pub fn command_bytes(c: Command, fw: &Firmware) -> (r: Vec<u8>)
    requires
        fw.wf(),
    ensures
        r@ == command_line(c, *fw),
{
    let g = fw.glyph(c);
    let mut r: Vec<u8> = Vec::new();
    let mut i: usize = 0;
    while i < g.len()
        invariant
            i <= g.len(),
            r@ == g@.subrange(0, i as int),
        decreases g.len() - i,
    {
        r.push(g[i]);
        i = i + 1;
        assert(r@ =~= g@.subrange(0, i as int));
    }
    assert(g@.subrange(0, g@.len() as int) =~= g@);
    r.push(13u8);
    r.push(10u8);
    assert(r@ =~= command_line(c, *fw));
    r
}

/// Whether `buf` ends with `suffix`: a read that waits for a prompt stops there.
pub fn ends_with(buf: &[u8], suffix: &[u8]) -> (r: bool)
    ensures
        r == (suffix@.len() <= buf@.len() && buf@.subrange(
            buf@.len() - suffix@.len(),
            buf@.len() as int,
        ) == suffix@),
{
    if suffix.len() > buf.len() {
        return false;
    }
    let start: usize = buf.len() - suffix.len();
    let mut j: usize = 0;
    while j < suffix.len()
        invariant
            start == buf.len() - suffix.len(),
            j <= suffix.len(),
            forall|k: int| 0 <= k < j ==> buf@[start + k] == suffix@[k],
        decreases suffix.len() - j,
    {
        if buf[start + j] != suffix[j] {
            assert(buf@.subrange(start as int, buf@.len() as int)[j as int] != suffix@[j as int]);
            return false;
        }
        j = j + 1;
    }
    assert(buf@.subrange(start as int, buf@.len() as int) =~= suffix@);
    true
}

} // verus!
