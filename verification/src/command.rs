//! Abstract user commands and modifier masks.
//!
//! A `Command` is a closed enumeration of user intents; a `CommandMod` is the
//! exact set of modifier keys a chord requires.  Modifier masks are parsed
//! from configuration tokens written as concatenated PascalCase words
//! (`"CtrlShiftMod"`); a word is recognized by scanning uppercase-letter
//! boundaries, and unrecognized words are ignored.

use vstd::prelude::*;

verus! {

/// One abstract user intent, produced by the command resolver and consumed
/// once per dispatch.
#[derive(Clone, Copy, PartialEq, Eq, Structural, Debug)]
pub enum Command {
    // zoom
    ResetScale,
    ZoomIn,
    ZoomOut,
    // move camera
    NudgeUp,
    NudgeDown,
    NudgeLeft,
    NudgeRight,
    // tools
    ToolPan,
    ToolPen,
    ToolSelect,
    ToolZoom,
    ToolVWS,
    ToolMeasure,
    ToolAnchors,
    ToolShapes,
    // selection
    DeleteSelection,
    SelectAll,
    CopySelection,
    PasteSelection,
    CutSelection,
    // history
    HistoryUndo,
    HistoryRedo,
    // I/O
    IOOpen,
    IOSave,
    IOSaveAs,
    IOSaveFlatten,
    IOFlatten,
    IOExport,
    // view modes
    TogglePointLabels,
    TogglePreviewMode,
    // console
    ToggleConsole,
    // misc
    Quit,
    ReverseContour,
    // debug
    SkiaDump,
}

/// The four independent modifier flags of a chord.
#[derive(Clone, Copy, Debug, Default, PartialEq, Eq, Structural, Hash)]
pub struct CommandMod {
    pub shift: bool,
    pub ctrl: bool,
    pub alt: bool,
    pub meta: bool,
}

/// A resolved command together with the modifier mask it was dispatched
/// under.
#[derive(Clone, Copy, PartialEq, Eq, Structural, Debug)]
pub struct CommandInfo {
    pub command: Command,
    pub command_mod: CommandMod,
}

impl CommandMod {
    /// The empty mask: no modifier held.
    pub fn none() -> (r: Self)
        ensures
            r == (CommandMod { shift: false, ctrl: false, alt: false, meta: false }),
    {
        CommandMod { shift: false, ctrl: false, alt: false, meta: false }
    }
}

pub open spec fn is_upper(c: char) -> bool {
    65 <= c as u32 <= 90
}

/// The recognized word `w` occurs in `s` starting at `i`: the characters
/// match and the word ends at the end of the token or at the next
/// uppercase-letter boundary.
pub open spec fn word_at(s: Seq<char>, i: int, w: Seq<char>) -> bool {
    &&& 0 <= i
    &&& i + w.len() <= s.len()
    &&& s.subrange(i, i + w.len()) == w
    &&& (i + w.len() == s.len() || is_upper(s[i + w.len()]))
}

pub open spec fn word_in(s: Seq<char>, w: Seq<char>) -> bool {
    exists|i: int| word_at(s, i, w)
}

/// The modifier mask denoted by a PascalCase token: each flag is set exactly
/// when one of its spelling words occurs in the token; every other word is
/// ignored.
pub open spec fn spec_mods_of(s: Seq<char>) -> CommandMod {
    CommandMod {
        shift: word_in(s, "Shift"@),
        ctrl: word_in(s, "Ctrl"@) || word_in(s, "Control"@),
        alt: word_in(s, "Alt"@),
        meta: word_in(s, "Meta"@) || word_in(s, "Super"@) || word_in(s, "Windows"@) || word_in(
            s,
            "Gui"@,
        ),
    }
}

/// The characters of `s`, as a vector.
fn str_chars(s: &str) -> (r: Vec<char>)
    ensures
        r@ == s@,
{
    let n = s.unicode_len();
    let mut r: Vec<char> = Vec::new();
    let mut i: usize = 0;
    while i < n
        invariant
            n == s@.len(),
            i <= n,
            r@ == s@.subrange(0, i as int),
        decreases n - i,
    {
        r.push(s.get_char(i));
        proof {
            assert(r@ =~= s@.subrange(0, i + 1 as int));
        }
        i = i + 1;
    }
    proof {
        assert(r@ =~= s@);
    }
    r
}

/// Does the recognized word `w` occur in `cs` at position `i`?
fn match_word(cs: &Vec<char>, i: usize, w: &str) -> (r: bool)
    ensures
        r == word_at(cs@, i as int, w@),
{
    let wlen = w.unicode_len();
    if wlen > cs.len() || i > cs.len() - wlen {
        return false;
    }
    let mut j: usize = 0;
    while j < wlen
        invariant
            wlen == w@.len(),
            i + wlen <= cs@.len(),
            j <= wlen,
            forall|k: int| 0 <= k < j ==> cs@[i + k] == w@[k],
        decreases wlen - j,
    {
        proof {
            assert(i + j < cs.len());
        }
        if cs[i + j] != w.get_char(j) {
            proof {
                assert(cs@.subrange(i as int, i + w@.len()) != w@) by {
                    assert(cs@.subrange(i as int, i + w@.len())[j as int] != w@[j as int]);
                }
            }
            return false;
        }
        j = j + 1;
    }
    proof {
        assert(cs@.subrange(i as int, i + w@.len()) =~= w@);
    }
    if i + wlen == cs.len() {
        true
    } else {
        let c = cs[i + wlen];
        (c as u32) >= 65 && (c as u32) <= 90
    }
}

/// Parses a PascalCase modifier token into its mask.
pub fn parse_modifier_token(s: &str) -> (r: CommandMod)
    ensures
        r == spec_mods_of(s@),
{
    let cs = str_chars(s);
    let mut shift = false;
    let mut ctrl = false;
    let mut alt = false;
    let mut meta = false;
    let n = cs.len();
    let mut i: usize = 0;
    while i < n
        invariant
            cs@ == s@,
            n == cs@.len(),
            i <= n,
            shift == exists|j: int| j < i && word_at(s@, j, "Shift"@),
            ctrl == exists|j: int| j < i && (word_at(s@, j, "Ctrl"@) || word_at(s@, j, "Control"@)),
            alt == exists|j: int| j < i && word_at(s@, j, "Alt"@),
            meta == exists|j: int|
                j < i && (word_at(s@, j, "Meta"@) || word_at(s@, j, "Super"@) || word_at(
                    s@,
                    j,
                    "Windows"@,
                ) || word_at(s@, j, "Gui"@)),
        decreases n - i,
    {
        if match_word(&cs, i, "Shift") {
            shift = true;
        }
        if match_word(&cs, i, "Ctrl") || match_word(&cs, i, "Control") {
            ctrl = true;
        }
        if match_word(&cs, i, "Alt") {
            alt = true;
        }
        if match_word(&cs, i, "Meta") || match_word(&cs, i, "Super") || match_word(&cs, i, "Windows")
            || match_word(&cs, i, "Gui") {
            meta = true;
        }
        i = i + 1;
    }
    proof {
        lemma_words_are_nonempty();
        assert forall|w: Seq<char>| w.len() > 0 implies (word_in(s@, w) == exists|j: int|
            j < n && word_at(s@, j, w)) by {
            if word_in(s@, w) {
                let j = choose|j: int| word_at(s@, j, w);
                assert(j < n);
                assert(exists|j: int| j < n && word_at(s@, j, w));
            }
        }
    }
    CommandMod { shift, ctrl, alt, meta }
}

proof fn lemma_words_are_nonempty()
    ensures
        "Shift"@.len() > 0,
        "Ctrl"@.len() > 0,
        "Control"@.len() > 0,
        "Alt"@.len() > 0,
        "Meta"@.len() > 0,
        "Super"@.len() > 0,
        "Windows"@.len() > 0,
        "Gui"@.len() > 0,
{
    reveal_strlit("Shift");
    reveal_strlit("Ctrl");
    reveal_strlit("Control");
    reveal_strlit("Alt");
    reveal_strlit("Meta");
    reveal_strlit("Super");
    reveal_strlit("Windows");
    reveal_strlit("Gui");
}

/// Character-wise string equality.
pub fn str_eq(a: &str, b: &str) -> (r: bool)
    ensures
        r == (a@ == b@),
{
    let n = a.unicode_len();
    if n != b.unicode_len() {
        return false;
    }
    let mut i: usize = 0;
    while i < n
        invariant
            n == a@.len(),
            n == b@.len(),
            i <= n,
            forall|k: int| 0 <= k < i ==> a@[k] == b@[k],
        decreases n - i,
    {
        if a.get_char(i) != b.get_char(i) {
            return false;
        }
        i = i + 1;
    }
    proof {
        assert(a@ =~= b@);
    }
    true
}

/// The command denoted by a configuration name, if the name is one of the
/// `Command` variant names.
pub open spec fn spec_command_from_name(s: Seq<char>) -> Option<Command> {
    if s == "ResetScale"@ {
        Some(Command::ResetScale)
    } else if s == "ZoomIn"@ {
        Some(Command::ZoomIn)
    } else if s == "ZoomOut"@ {
        Some(Command::ZoomOut)
    } else if s == "NudgeUp"@ {
        Some(Command::NudgeUp)
    } else if s == "NudgeDown"@ {
        Some(Command::NudgeDown)
    } else if s == "NudgeLeft"@ {
        Some(Command::NudgeLeft)
    } else if s == "NudgeRight"@ {
        Some(Command::NudgeRight)
    } else if s == "ToolPan"@ {
        Some(Command::ToolPan)
    } else if s == "ToolPen"@ {
        Some(Command::ToolPen)
    } else if s == "ToolSelect"@ {
        Some(Command::ToolSelect)
    } else if s == "ToolZoom"@ {
        Some(Command::ToolZoom)
    } else if s == "ToolVWS"@ {
        Some(Command::ToolVWS)
    } else if s == "ToolMeasure"@ {
        Some(Command::ToolMeasure)
    } else if s == "ToolAnchors"@ {
        Some(Command::ToolAnchors)
    } else if s == "ToolShapes"@ {
        Some(Command::ToolShapes)
    } else if s == "DeleteSelection"@ {
        Some(Command::DeleteSelection)
    } else if s == "SelectAll"@ {
        Some(Command::SelectAll)
    } else if s == "CopySelection"@ {
        Some(Command::CopySelection)
    } else if s == "PasteSelection"@ {
        Some(Command::PasteSelection)
    } else if s == "CutSelection"@ {
        Some(Command::CutSelection)
    } else if s == "HistoryUndo"@ {
        Some(Command::HistoryUndo)
    } else if s == "HistoryRedo"@ {
        Some(Command::HistoryRedo)
    } else if s == "IOOpen"@ {
        Some(Command::IOOpen)
    } else if s == "IOSave"@ {
        Some(Command::IOSave)
    } else if s == "IOSaveAs"@ {
        Some(Command::IOSaveAs)
    } else if s == "IOSaveFlatten"@ {
        Some(Command::IOSaveFlatten)
    } else if s == "IOFlatten"@ {
        Some(Command::IOFlatten)
    } else if s == "IOExport"@ {
        Some(Command::IOExport)
    } else if s == "TogglePointLabels"@ {
        Some(Command::TogglePointLabels)
    } else if s == "TogglePreviewMode"@ {
        Some(Command::TogglePreviewMode)
    } else if s == "ToggleConsole"@ {
        Some(Command::ToggleConsole)
    } else if s == "Quit"@ {
        Some(Command::Quit)
    } else if s == "ReverseContour"@ {
        Some(Command::ReverseContour)
    } else if s == "SkiaDump"@ {
        Some(Command::SkiaDump)
    } else {
        None
    }
}

/// Looks a command up by its variant name, as written in a binding source.
pub fn command_from_name(s: &str) -> (r: Option<Command>)
    ensures
        r == spec_command_from_name(s@),
{
    if str_eq(s, "ResetScale") {
        Some(Command::ResetScale)
    } else if str_eq(s, "ZoomIn") {
        Some(Command::ZoomIn)
    } else if str_eq(s, "ZoomOut") {
        Some(Command::ZoomOut)
    } else if str_eq(s, "NudgeUp") {
        Some(Command::NudgeUp)
    } else if str_eq(s, "NudgeDown") {
        Some(Command::NudgeDown)
    } else if str_eq(s, "NudgeLeft") {
        Some(Command::NudgeLeft)
    } else if str_eq(s, "NudgeRight") {
        Some(Command::NudgeRight)
    } else if str_eq(s, "ToolPan") {
        Some(Command::ToolPan)
    } else if str_eq(s, "ToolPen") {
        Some(Command::ToolPen)
    } else if str_eq(s, "ToolSelect") {
        Some(Command::ToolSelect)
    } else if str_eq(s, "ToolZoom") {
        Some(Command::ToolZoom)
    } else if str_eq(s, "ToolVWS") {
        Some(Command::ToolVWS)
    } else if str_eq(s, "ToolMeasure") {
        Some(Command::ToolMeasure)
    } else if str_eq(s, "ToolAnchors") {
        Some(Command::ToolAnchors)
    } else if str_eq(s, "ToolShapes") {
        Some(Command::ToolShapes)
    } else if str_eq(s, "DeleteSelection") {
        Some(Command::DeleteSelection)
    } else if str_eq(s, "SelectAll") {
        Some(Command::SelectAll)
    } else if str_eq(s, "CopySelection") {
        Some(Command::CopySelection)
    } else if str_eq(s, "PasteSelection") {
        Some(Command::PasteSelection)
    } else if str_eq(s, "CutSelection") {
        Some(Command::CutSelection)
    } else if str_eq(s, "HistoryUndo") {
        Some(Command::HistoryUndo)
    } else if str_eq(s, "HistoryRedo") {
        Some(Command::HistoryRedo)
    } else if str_eq(s, "IOOpen") {
        Some(Command::IOOpen)
    } else if str_eq(s, "IOSave") {
        Some(Command::IOSave)
    } else if str_eq(s, "IOSaveAs") {
        Some(Command::IOSaveAs)
    } else if str_eq(s, "IOSaveFlatten") {
        Some(Command::IOSaveFlatten)
    } else if str_eq(s, "IOFlatten") {
        Some(Command::IOFlatten)
    } else if str_eq(s, "IOExport") {
        Some(Command::IOExport)
    } else if str_eq(s, "TogglePointLabels") {
        Some(Command::TogglePointLabels)
    } else if str_eq(s, "TogglePreviewMode") {
        Some(Command::TogglePreviewMode)
    } else if str_eq(s, "ToggleConsole") {
        Some(Command::ToggleConsole)
    } else if str_eq(s, "Quit") {
        Some(Command::Quit)
    } else if str_eq(s, "ReverseContour") {
        Some(Command::ReverseContour)
    } else if str_eq(s, "SkiaDump") {
        Some(Command::SkiaDump)
    } else {
        None
    }
}

/// A PascalCase word: nonempty, opening with its only uppercase letter.
pub open spec fn pascal_word(w: Seq<char>) -> bool {
    &&& w.len() > 0
    &&& is_upper(w[0])
    &&& forall|i: int| 1 <= i < w.len() ==> !is_upper(#[trigger] w[i])
}

/// The token written by concatenating the given words.
pub open spec fn concat_words(ws: Seq<Seq<char>>) -> Seq<char>
    decreases ws.len(),
{
    if ws.len() == 0 {
        Seq::empty()
    } else {
        ws[0] + concat_words(ws.drop_first())
    }
}

/// A concatenation of PascalCase words is empty or opens with an uppercase
/// letter.
proof fn lemma_concat_words_head(ws: Seq<Seq<char>>)
    requires
        forall|k: int| 0 <= k < ws.len() ==> pascal_word(#[trigger] ws[k]),
    ensures
        concat_words(ws).len() == 0 || is_upper(concat_words(ws)[0]),
    decreases ws.len(),
{
    if ws.len() > 0 {
        assert(pascal_word(ws[0]));
        assert(concat_words(ws)[0] == ws[0][0]);
    }
}

/// Where a recognized word can sit inside `first + rest` when `first` is a
/// PascalCase word and `rest` opens at an uppercase boundary: either it is
/// exactly `first`, or it sits wholly inside `rest`.
proof fn lemma_word_at_concat(first: Seq<char>, rest: Seq<char>, w: Seq<char>, i: int)
    requires
        pascal_word(first),
        pascal_word(w),
        rest.len() == 0 || is_upper(rest[0]),
    ensures
        word_at(first + rest, i, w) <==> ((i == 0 && w == first) || word_at(rest, i - first.len(), w)),
{
    let s = first + rest;
    if word_at(s, i, w) {
        if i == 0 {
            if w.len() < first.len() {
                assert(is_upper(s[w.len() as int]));
                assert(s[w.len() as int] == first[w.len() as int]);
                assert(!is_upper(first[w.len() as int]));
            } else if w.len() > first.len() {
                assert(s.subrange(0, w.len() as int)[first.len() as int] == w[first.len() as int]);
                assert(w[first.len() as int] == rest[0]);
                assert(!is_upper(w[first.len() as int]));
            } else {
                assert(w =~= first) by {
                    assert(forall|j: int|
                        0 <= j < w.len() ==> s.subrange(0, w.len() as int)[j] == w[j]);
                }
            }
        } else if i < first.len() {
            assert(s.subrange(i, i + w.len())[0] == w[0]);
            assert(s[i] == first[i]);
            assert(!is_upper(first[i]));
            assert(is_upper(w[0]));
        } else {
            assert(word_at(rest, i - first.len(), w)) by {
                assert(rest.subrange(i - first.len(), i - first.len() + w.len()) =~= s.subrange(
                    i,
                    i + w.len(),
                ));
                if i + w.len() < s.len() {
                    assert(s[i + w.len()] == rest[i - first.len() + w.len()]);
                }
            }
        }
    }
    if i == 0 && w == first {
        assert(word_at(s, 0, w)) by {
            assert(s.subrange(0, w.len() as int) =~= w);
            if w.len() < s.len() {
                assert(s[w.len() as int] == rest[0]);
            }
        }
    }
    if word_at(rest, i - first.len(), w) {
        assert(word_at(s, i, w)) by {
            assert(s.subrange(i, i + w.len()) =~= rest.subrange(
                i - first.len(),
                i - first.len() + w.len(),
            ));
            if i + w.len() < s.len() {
                assert(s[i + w.len()] == rest[i - first.len() + w.len()]);
            }
        }
    }
}

/// A recognized word occurs in a token built from PascalCase words exactly
/// when it is one of those words.
proof fn lemma_word_in_concat(ws: Seq<Seq<char>>, w: Seq<char>)
    requires
        forall|k: int| 0 <= k < ws.len() ==> pascal_word(#[trigger] ws[k]),
        pascal_word(w),
    ensures
        word_in(concat_words(ws), w) <==> exists|k: int| 0 <= k < ws.len() && ws[k] == w,
    decreases ws.len(),
{
    if ws.len() == 0 {
        if word_in(concat_words(ws), w) {
            let i = choose|i: int| word_at(concat_words(ws), i, w);
            assert(false);
        }
    } else {
        let rest = ws.drop_first();
        assert(forall|k: int| 0 <= k < rest.len() ==> pascal_word(#[trigger] rest[k])) by {
            assert(forall|k: int| 0 <= k < rest.len() ==> rest[k] == ws[k + 1]);
        }
        lemma_word_in_concat(rest, w);
        lemma_concat_words_head(rest);
        let s = concat_words(ws);
        if word_in(s, w) {
            let i = choose|i: int| word_at(s, i, w);
            lemma_word_at_concat(ws[0], concat_words(rest), w, i);
            if i == 0 && w == ws[0] {
                assert(ws[0] == w);
            } else {
                let k = choose|k: int| 0 <= k < rest.len() && rest[k] == w;
                assert(ws[k + 1] == w);
            }
            assert(exists|k: int| 0 <= k < ws.len() && ws[k] == w);
        }
        if exists|k: int| 0 <= k < ws.len() && ws[k] == w {
            let k = choose|k: int| 0 <= k < ws.len() && ws[k] == w;
            if k == 0 {
                lemma_word_at_concat(ws[0], concat_words(rest), w, 0);
                assert(word_at(s, 0, w));
            } else {
                assert(rest[k - 1] == w);
                let i = choose|i: int| word_at(concat_words(rest), i, w);
                lemma_word_at_concat(ws[0], concat_words(rest), w, i + ws[0].len());
                assert(word_at(s, i + ws[0].len(), w));
            }
            assert(word_in(s, w));
        }
    }
}

/// For a token written as any concatenation of PascalCase words, the parsed
/// mask sets exactly the flags whose spelling words occur among them — and
/// every word that is not a recognized modifier word, wherever it stands,
/// contributes nothing.
pub proof fn lemma_modifier_token_concat(ws: Seq<Seq<char>>)
    requires
        forall|k: int| 0 <= k < ws.len() ==> pascal_word(#[trigger] ws[k]),
    ensures
        spec_mods_of(concat_words(ws)).shift <==> exists|k: int|
            0 <= k < ws.len() && ws[k] == "Shift"@,
        spec_mods_of(concat_words(ws)).ctrl <==> exists|k: int|
            0 <= k < ws.len() && (ws[k] == "Ctrl"@ || ws[k] == "Control"@),
        spec_mods_of(concat_words(ws)).alt <==> exists|k: int| 0 <= k < ws.len() && ws[k] == "Alt"@,
        spec_mods_of(concat_words(ws)).meta <==> exists|k: int|
            0 <= k < ws.len() && (ws[k] == "Meta"@ || ws[k] == "Super"@ || ws[k] == "Windows"@
                || ws[k] == "Gui"@),
{
    lemma_modifier_literals_are_pascal();
    lemma_word_in_concat(ws, "Shift"@);
    lemma_word_in_concat(ws, "Ctrl"@);
    lemma_word_in_concat(ws, "Control"@);
    lemma_word_in_concat(ws, "Alt"@);
    lemma_word_in_concat(ws, "Meta"@);
    lemma_word_in_concat(ws, "Super"@);
    lemma_word_in_concat(ws, "Windows"@);
    lemma_word_in_concat(ws, "Gui"@);
}

proof fn lemma_modifier_literals_are_pascal()
    ensures
        pascal_word("Shift"@),
        pascal_word("Ctrl"@),
        pascal_word("Control"@),
        pascal_word("Alt"@),
        pascal_word("Meta"@),
        pascal_word("Super"@),
        pascal_word("Windows"@),
        pascal_word("Gui"@),
{
    reveal_strlit("Shift");
    reveal_strlit("Ctrl");
    reveal_strlit("Control");
    reveal_strlit("Alt");
    reveal_strlit("Meta");
    reveal_strlit("Super");
    reveal_strlit("Windows");
    reveal_strlit("Gui");
}

impl From<&str> for CommandMod {
    /// Parses a token such as `"CtrlShiftMod"`; trailing unrecognized words
    /// are ignored.
    fn from(s: &str) -> (r: CommandMod) {
        parse_modifier_token(s)
    }
}

impl vstd::std_specs::convert::FromSpecImpl<&str> for CommandMod {
    open spec fn obeys_from_spec() -> bool {
        true
    }

    open spec fn from_spec(s: &str) -> CommandMod {
        spec_mods_of(s@)
    }
}

} // verus!
