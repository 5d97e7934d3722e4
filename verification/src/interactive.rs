//! The line language of the interactive host.
//!
//! A line is split into words; the first names the command and the rest are
//! its operands. Parameter values and tolerances are floating-point numbers,
//! which this grammar hands on as the text it found.
use vstd::prelude::*;
use crate::au::{parse_u32_radix, u32_from_str_radix};
use crate::text::{
    char_len, char_is_whitespace, decimal, push_decimal, is_unicode_whitespace, lemma_trim_idempotent, lemma_trim_identity,
    push_char_at, str_eq, trim, trim_str,
};

verus! {

/// How a script names a parameter: `#n` is the n-th parameter as `params`
/// lists it; a bare number is a parameter id.
#[derive(Copy, Clone, Debug, PartialEq, Eq, Structural)]
pub enum ParamRef {
    Id(u32),
    Index(u32),
}

/// One parsed line; numbers that are floating point are kept as written.
#[derive(Clone, Debug)]
pub enum Command {
    Help,
    Info,
    Params,
    Buses,
    Get { param: ParamRef },
    SetValue { param: ParamRef, value: String },
    Expect { param: ParamRef, value: String, tolerance: Option<String> },
    Process { frames: u32 },
    Reset,
    StateSave { path: String },
    StateLoad { path: String },
    PresetSave { path: String },
    PresetLoad { path: String },
    EditorOpen,
    EditorClose,
    Echo { text: String },
    Quit,
}

/// A parsed line over char views.
pub enum CommandView {
    Help,
    Info,
    Params,
    Buses,
    Get { param: ParamRef },
    SetValue { param: ParamRef, value: Seq<char> },
    Expect { param: ParamRef, value: Seq<char>, tolerance: Option<Seq<char>> },
    Process { frames: u32 },
    Reset,
    StateSave { path: Seq<char> },
    StateLoad { path: Seq<char> },
    PresetSave { path: Seq<char> },
    PresetLoad { path: Seq<char> },
    EditorOpen,
    EditorClose,
    Echo { text: Seq<char> },
    Quit,
}

pub open spec fn opt_view(o: Option<String>) -> Option<Seq<char>> {
    match o {
        Some(s) => Some(s@),
        None => None,
    }
}

impl View for Command {
    type V = CommandView;

    open spec fn view(&self) -> CommandView {
        match self {
            Command::Help => CommandView::Help,
            Command::Info => CommandView::Info,
            Command::Params => CommandView::Params,
            Command::Buses => CommandView::Buses,
            Command::Get { param } => CommandView::Get { param: *param },
            Command::SetValue { param, value } => CommandView::SetValue { param: *param, value: value@ },
            Command::Expect { param, value, tolerance } => CommandView::Expect {
                param: *param,
                value: value@,
                tolerance: opt_view(*tolerance),
            },
            Command::Process { frames } => CommandView::Process { frames: *frames },
            Command::Reset => CommandView::Reset,
            Command::StateSave { path } => CommandView::StateSave { path: path@ },
            Command::StateLoad { path } => CommandView::StateLoad { path: path@ },
            Command::PresetSave { path } => CommandView::PresetSave { path: path@ },
            Command::PresetLoad { path } => CommandView::PresetLoad { path: path@ },
            Command::EditorOpen => CommandView::EditorOpen,
            Command::EditorClose => CommandView::EditorClose,
            Command::Echo { text } => CommandView::Echo { text: text@ },
            Command::Quit => CommandView::Quit,
        }
    }
}

/// `str::split_whitespace` on the char view: the maximal runs of chars that
/// are not white space.
pub open spec fn words(s: Seq<char>) -> Seq<Seq<char>>
    decreases s.len(),
{
    if s.len() == 0 {
        Seq::empty()
    } else {
        let w = words(s.drop_last());
        let c = s.last();
        if is_unicode_whitespace(c) {
            w
        } else if s.len() >= 2 && !is_unicode_whitespace(s[s.len() - 2]) {
            w.update(w.len() - 1, w.last().push(c))
        } else {
            w.push(seq![c])
        }
    }
}

pub open spec fn strings_view(v: Seq<String>) -> Seq<Seq<char>> {
    v.map_values(|s: String| s@)
}

proof fn lemma_word_lengths(s: Seq<char>)
    ensures
        forall|i: int| 0 <= i < words(s).len() ==> #[trigger] words(s)[i].len() <= s.len(),
        s.len() > 0 && !is_unicode_whitespace(s.last()) ==> words(s).len() > 0,
    decreases s.len(),
{
    if s.len() > 0 {
        let d = s.drop_last();
        lemma_word_lengths(d);
        let w = words(d);
        let c = s.last();
        if !is_unicode_whitespace(c) && s.len() >= 2 && !is_unicode_whitespace(s[s.len() - 2]) {
            assert(d.last() == s[s.len() - 2]);
            assert(w.len() > 0);
            let u = w.update(w.len() - 1, w.last().push(c));
            assert forall|i: int| 0 <= i < u.len() implies #[trigger] u[i].len() <= s.len() by {
                if i < w.len() - 1 {
                    assert(u[i] == w[i]);
                }
            }
        } else if !is_unicode_whitespace(c) {
            let u = w.push(seq![c]);
            assert forall|i: int| 0 <= i < u.len() implies #[trigger] u[i].len() <= s.len() by {
                if i < w.len() {
                    assert(u[i] == w[i]);
                }
            }
        }
    }
}

/// Splits a line into its words.
pub fn split_words(s: &str) -> (v: Vec<String>)
    ensures
        strings_view(v@) == words(s@),
{
    let n = char_len(s);
    let mut v: Vec<String> = Vec::new();
    let mut i: usize = 0;
    while i < n
        invariant
            n == s@.len(),
            i <= n,
            strings_view(v@) == words(s@.take(i as int)),
            i > 0 && !is_unicode_whitespace(s@[i - 1]) ==> v@.len() > 0,
        decreases n - i,
    {
        let c = s.get_char(i);
        let prefix = Ghost(s@.take(i + 1));
        assert(prefix@.drop_last() =~= s@.take(i as int));
        assert(prefix@.last() == c);
        if char_is_whitespace(c) {
        } else if i >= 1 && !char_is_whitespace(s.get_char(i - 1)) {
            assert(prefix@[prefix@.len() - 2] == s@[i - 1]);
            let last = v.len() - 1;
            let mut word = v[last].clone();
            let ghost before = strings_view(v@);
            push_char_at(&mut word, s, i);
            v.set(last, word);
            assert(strings_view(v@) =~= before.update(before.len() - 1, before.last().push(c)));
        } else {
            proof {
                if i >= 1 {
                    assert(prefix@[prefix@.len() - 2] == s@[i - 1]);
                }
            }
            let mut word = String::new();
            push_char_at(&mut word, s, i);
            let ghost before = strings_view(v@);
            assert(word@ =~= seq![c]);
            v.push(word);
            assert(strings_view(v@) =~= before.push(seq![c]));
        }
        i = i + 1;
    }
    assert(s@.take(n as int) =~= s@);
    v
}

/// The operand at `k`, if the line has one.
pub open spec fn operand(rest: Seq<Seq<char>>, k: int) -> Option<Seq<char>> {
    if 0 <= k < rest.len() {
        Some(rest[k])
    } else {
        None
    }
}

/// A parameter reference, or why the operand is not one.
pub open spec fn param_result(head: Seq<char>, text: Option<Seq<char>>) -> Result<ParamRef, Seq<char>> {
    match text {
        None => Err(head + ": missing parameter id or #index"@),
        Some(t) => if t.len() > 0 && t[0] == '#' {
            match u32_from_str_radix(t.drop_first(), 10) {
                Ok(v) => Ok(ParamRef::Index(v)),
                Err(_) => Err(head + ": '#"@ + t.drop_first() + "' is not a parameter index"@),
            }
        } else {
            match u32_from_str_radix(t, 10) {
                Ok(v) => Ok(ParamRef::Id(v)),
                Err(_) => Err(head + ": '"@ + t + "' is neither a parameter id nor a #index"@),
            }
        },
    }
}

/// An operand that must be present.
pub open spec fn required_operand(head: Seq<char>, what: Seq<char>, text: Option<Seq<char>>) -> Result<
    Seq<char>,
    Seq<char>,
> {
    match text {
        None => Err(head + ": missing "@ + what),
        Some(t) => Ok(t),
    }
}

/// A non-negative integer operand.
pub open spec fn u32_operand(head: Seq<char>, what: Seq<char>, text: Option<Seq<char>>) -> Result<
    u32,
    Seq<char>,
> {
    match text {
        None => Err(head + ": missing "@ + what),
        Some(t) => match u32_from_str_radix(t, 10) {
            Ok(v) => Ok(v),
            Err(_) => Err(head + ": "@ + what + " '"@ + t + "' is not a non-negative integer"@),
        },
    }
}

/// The commands that take a file path.
pub open spec fn file_command(
    head: Seq<char>,
    rest: Seq<Seq<char>>,
) -> Result<Option<CommandView>, Seq<char>> {
    match operand(rest, 0) {
        None => Err(head + ": expected 'save' or 'load'"@),
        Some(verb) => match operand(rest, 1) {
            None => Err(head + " "@ + verb + ": missing file path"@),
            Some(path) => if head == "state"@ && verb == "save"@ {
                Ok(Some(CommandView::StateSave { path }))
            } else if head == "state"@ && verb == "load"@ {
                Ok(Some(CommandView::StateLoad { path }))
            } else if head == "preset"@ && verb == "save"@ {
                Ok(Some(CommandView::PresetSave { path }))
            } else if head == "preset"@ && verb == "load"@ {
                Ok(Some(CommandView::PresetLoad { path }))
            } else {
                Err(head + ": unknown subcommand '"@ + verb + "'"@)
            },
        },
    }
}

/// What a line of the session language means: nothing for a blank or
/// comment line, a command, or why the line is refused.
pub open spec fn command_spec(line: Seq<char>) -> Result<Option<CommandView>, Seq<char>> {
    let l = trim(line);
    let ws = words(l);
    if l.len() == 0 || l[0] == '#' || ws.len() == 0 {
        Ok(None)
    } else {
        let head = ws[0];
        let rest = ws.drop_first();
        if head == "help"@ {
            Ok(Some(CommandView::Help))
        } else if head == "info"@ {
            Ok(Some(CommandView::Info))
        } else if head == "params"@ {
            Ok(Some(CommandView::Params))
        } else if head == "buses"@ {
            Ok(Some(CommandView::Buses))
        } else if head == "get"@ {
            match param_result(head, operand(rest, 0)) {
                Err(e) => Err(e),
                Ok(param) => Ok(Some(CommandView::Get { param })),
            }
        } else if head == "set"@ {
            match param_result(head, operand(rest, 0)) {
                Err(e) => Err(e),
                Ok(param) => match required_operand(head, "value"@, operand(rest, 1)) {
                    Err(e) => Err(e),
                    Ok(value) => Ok(Some(CommandView::SetValue { param, value })),
                },
            }
        } else if head == "expect"@ {
            match param_result(head, operand(rest, 0)) {
                Err(e) => Err(e),
                Ok(param) => match required_operand(head, "value"@, operand(rest, 1)) {
                    Err(e) => Err(e),
                    Ok(value) => Ok(
                        Some(CommandView::Expect { param, value, tolerance: operand(rest, 2) }),
                    ),
                },
            }
        } else if head == "process"@ {
            match operand(rest, 0) {
                None => Ok(Some(CommandView::Process { frames: 0 })),
                Some(_) => match u32_operand(head, "frame count"@, operand(rest, 0)) {
                    Err(e) => Err(e),
                    Ok(frames) => Ok(Some(CommandView::Process { frames })),
                },
            }
        } else if head == "reset"@ {
            Ok(Some(CommandView::Reset))
        } else if head == "state"@ || head == "preset"@ {
            file_command(head, rest)
        } else if head == "editor"@ {
            match operand(rest, 0) {
                None => Err("editor: expected 'open' or 'close'"@),
                Some(sub) => if sub == "open"@ {
                    Ok(Some(CommandView::EditorOpen))
                } else if sub == "close"@ {
                    Ok(Some(CommandView::EditorClose))
                } else {
                    Err("editor: unknown subcommand '"@ + sub + "'"@)
                },
            }
        } else if head == "echo"@ {
            Ok(Some(CommandView::Echo { text: trim(l.skip(4)) }))
        } else if head == "quit"@ || head == "exit"@ {
            Ok(Some(CommandView::Quit))
        } else {
            Err("unknown command '"@ + head + "'"@)
        }
    }
}

pub open spec fn command_result_view(r: Result<Option<Command>, String>) -> Result<
    Option<CommandView>,
    Seq<char>,
> {
    match r {
        Ok(Some(c)) => Ok(Some(c@)),
        Ok(None) => Ok(None),
        Err(e) => Err(e@),
    }
}

fn message2(a: &str, b: &str) -> (s: String)
    ensures
        s@ == a@ + b@,
{
    let mut s = a.to_owned();
    s.append(b);
    s
}

fn message3(a: &str, b: &str, c: &str) -> (s: String)
    ensures
        s@ == a@ + b@ + c@,
{
    let mut s = a.to_owned();
    s.append(b);
    s.append(c);
    s
}

fn message4(a: &str, b: &str, c: &str, d: &str) -> (s: String)
    ensures
        s@ == a@ + b@ + c@ + d@,
{
    let mut s = a.to_owned();
    s.append(b);
    s.append(c);
    s.append(d);
    s
}

fn get_operand(rest: &Vec<String>, k: usize) -> (r: Option<String>)
    ensures
        opt_view(r) == operand(strings_view(rest@), k as int),
{
    if k < rest.len() {
        Some(rest[k].clone())
    } else {
        None
    }
}

fn parse_param(head: &str, text: &Option<String>) -> (r: Result<ParamRef, String>)
    ensures
        match r {
            Ok(p) => param_result(head@, opt_view(*text)) == Ok::<ParamRef, Seq<char>>(p),
            Err(e) => param_result(head@, opt_view(*text)) == Err::<ParamRef, Seq<char>>(e@),
        },
{
    match text {
        None => Err(message2(head, ": missing parameter id or #index")),
        Some(t) => {
            let n = char_len(t.as_str());
            if n > 0 && t.as_str().get_char(0) == '#' {
                let index = t.as_str().substring_char(1, n);
                assert(index@ =~= t@.drop_first());
                match parse_u32_radix(index, 10) {
                    Ok(v) => Ok(ParamRef::Index(v)),
                    Err(_) => Err(message4(head, ": '#", index, "' is not a parameter index")),
                }
            } else {
                match parse_u32_radix(t.as_str(), 10) {
                    Ok(v) => Ok(ParamRef::Id(v)),
                    Err(_) => Err(
                        message4(head, ": '", t.as_str(), "' is neither a parameter id nor a #index"),
                    ),
                }
            }
        },
    }
}

fn required_text(head: &str, what: &str, text: Option<String>) -> (r: Result<String, String>)
    ensures
        match r {
            Ok(v) => required_operand(head@, what@, opt_view(text)) == Ok::<Seq<char>, Seq<char>>(
                v@,
            ),
            Err(e) => required_operand(head@, what@, opt_view(text)) == Err::<Seq<char>, Seq<char>>(
                e@,
            ),
        },
{
    match text {
        None => Err(message3(head, ": missing ", what)),
        Some(t) => Ok(t),
    }
}

fn parse_frames(head: &str, text: &String) -> (r: Result<u32, String>)
    ensures
        match r {
            Ok(v) => u32_operand(head@, "frame count"@, Some(text@)) == Ok::<u32, Seq<char>>(v),
            Err(e) => u32_operand(head@, "frame count"@, Some(text@)) == Err::<u32, Seq<char>>(e@),
        },
{
    match parse_u32_radix(text.as_str(), 10) {
        Ok(v) => Ok(v),
        Err(_) => {
            let mut m = message4(head, ": ", "frame count", " '");
            m.append(text.as_str());
            m.append("' is not a non-negative integer");
            Err(m)
        },
    }
}

fn parse_file_command(head: &str, rest: &Vec<String>) -> (r: Result<Option<Command>, String>)
    ensures
        command_result_view(r) == file_command(head@, strings_view(rest@)),
{
    let verb = match get_operand(rest, 0) {
        None => {
            return Err(message2(head, ": expected 'save' or 'load'"));
        },
        Some(v) => v,
    };
    let path = match get_operand(rest, 1) {
        None => {
            return Err(message4(head, " ", verb.as_str(), ": missing file path"));
        },
        Some(p) => p,
    };
    let v = verb.as_str();
    if str_eq(head, "state") && str_eq(v, "save") {
        Ok(Some(Command::StateSave { path }))
    } else if str_eq(head, "state") && str_eq(v, "load") {
        Ok(Some(Command::StateLoad { path }))
    } else if str_eq(head, "preset") && str_eq(v, "save") {
        Ok(Some(Command::PresetSave { path }))
    } else if str_eq(head, "preset") && str_eq(v, "load") {
        Ok(Some(Command::PresetLoad { path }))
    } else {
        Err(message4(head, ": unknown subcommand '", v, "'"))
    }
}

/// Parses one line of the session language. Blank and comment lines give
/// nothing; parameter values and tolerances are left as text.
pub fn parse_command(line: &str) -> (r: Result<Option<Command>, String>)
    ensures
        command_result_view(r) == command_spec(line@),
{
    let l = trim_str(line);
    let n = char_len(l.as_str());
    if n == 0 || l.as_str().get_char(0) == '#' {
        return Ok(None);
    }
    let ws = split_words(l.as_str());
    if ws.len() == 0 {
        return Ok(None);
    }
    let ghost wv = strings_view(ws@);
    let head_string = ws[0].clone();
    let head = head_string.as_str();
    let mut rest: Vec<String> = Vec::new();
    let mut k: usize = 1;
    while k < ws.len()
        invariant
            1 <= k <= ws@.len(),
            wv == strings_view(ws@),
            strings_view(rest@) == wv.subrange(1, k as int),
        decreases ws@.len() - k,
    {
        let item = ws[k].clone();
        let ghost before = strings_view(rest@);
        rest.push(item);
        assert(strings_view(rest@) =~= before.push(wv[k as int]));
        assert(wv.subrange(1, k + 1) =~= wv.subrange(1, k as int).push(wv[k as int]));
        k = k + 1;
    }
    assert(wv.subrange(1, ws@.len() as int) =~= wv.drop_first());
    assert(head@ == wv[0]);
    if str_eq(head, "help") {
        Ok(Some(Command::Help))
    } else if str_eq(head, "info") {
        Ok(Some(Command::Info))
    } else if str_eq(head, "params") {
        Ok(Some(Command::Params))
    } else if str_eq(head, "buses") {
        Ok(Some(Command::Buses))
    } else if str_eq(head, "get") {
        let param = parse_param(head, &get_operand(&rest, 0))?;
        Ok(Some(Command::Get { param }))
    } else if str_eq(head, "set") {
        let param = parse_param(head, &get_operand(&rest, 0))?;
        let value = required_text(head, "value", get_operand(&rest, 1))?;
        Ok(Some(Command::SetValue { param, value }))
    } else if str_eq(head, "expect") {
        let param = parse_param(head, &get_operand(&rest, 0))?;
        let value = required_text(head, "value", get_operand(&rest, 1))?;
        let tolerance = get_operand(&rest, 2);
        Ok(Some(Command::Expect { param, value, tolerance }))
    } else if str_eq(head, "process") {
        match get_operand(&rest, 0) {
            None => Ok(Some(Command::Process { frames: 0 })),
            Some(text) => {
                let frames = parse_frames(head, &text)?;
                Ok(Some(Command::Process { frames }))
            },
        }
    } else if str_eq(head, "reset") {
        Ok(Some(Command::Reset))
    } else if str_eq(head, "state") || str_eq(head, "preset") {
        parse_file_command(head, &rest)
    } else if str_eq(head, "editor") {
        match get_operand(&rest, 0) {
            None => Err("editor: expected 'open' or 'close'".to_owned()),
            Some(sub) => {
                if str_eq(sub.as_str(), "open") {
                    Ok(Some(Command::EditorOpen))
                } else if str_eq(sub.as_str(), "close") {
                    Ok(Some(Command::EditorClose))
                } else {
                    Err(message3("editor: unknown subcommand '", sub.as_str(), "'"))
                }
            },
        }
    } else if str_eq(head, "echo") {
        proof {
            reveal_strlit("echo");
            lemma_word_lengths(l@);
            assert(wv[0].len() <= l@.len());
        }
        let after = l.as_str().substring_char(4, n);
        assert(after@ =~= l@.skip(4));
        Ok(Some(Command::Echo { text: trim_str(after) }))
    } else if str_eq(head, "quit") || str_eq(head, "exit") {
        Ok(Some(Command::Quit))
    } else {
        Err(message3("unknown command '", head, "'"))
    }
}

/// No line is silently ignored: only blank lines and `#` comments mean
/// nothing; every other line is a command or is refused with a message.
pub proof fn only_blank_and_comment_lines_are_skipped(line: Seq<char>)
    ensures
        command_spec(line) is Ok && command_spec(line)->Ok_0 is None <==> (trim(line).len() == 0
            || trim(line)[0] == '#'),
        command_spec(line) matches Err(m) ==> m.len() > 0,
{
    let l = trim(line);
    lemma_trim_identity(l);
    lemma_trim_idempotent(line);
    if l.len() > 0 {
        assert(!is_unicode_whitespace(l.last()));
        lemma_word_lengths(l);
    }
    reveal_strlit("editor: expected 'open' or 'close'");
    reveal_strlit("unknown command '");
    reveal_strlit(": missing parameter id or #index");
    reveal_strlit(": missing ");
    reveal_strlit(": expected 'save' or 'load'");
    reveal_strlit(" ");
    reveal_strlit(": unknown subcommand '");
    reveal_strlit("editor: unknown subcommand '");
    reveal_strlit(": '#");
    reveal_strlit(": '");
    reveal_strlit(": ");
}

// ------------------------------------------------------------ parameter references

/// How a message names a parameter reference: `id 7` or `index #0`.
pub open spec fn param_ref_text(p: ParamRef) -> Seq<char> {
    match p {
        ParamRef::Id(id) => "id "@ + decimal(id as nat),
        ParamRef::Index(index) => "index #"@ + decimal(index as nat),
    }
}

impl ParamRef {
    /// How a message names this reference.
    pub fn describe(&self) -> (s: String)
        ensures
            s@ == param_ref_text(*self),
    {
        let mut s = String::new();
        match *self {
            ParamRef::Id(id) => {
                s.append("id ");
                push_decimal(&mut s, id as u64);
            },
            ParamRef::Index(index) => {
                s.append("index #");
                push_decimal(&mut s, index as u64);
            },
        }
        s
    }
}

/// The parameter ID a reference stands for, given how many parameters the
/// plug-in has and the ID that the plug-in reports for the referenced
/// position (`None` where it reports no info there); an ID stands for itself.
pub open spec fn resolved_param(param: ParamRef, count: u32, id_at_index: Option<u32>) -> Result<
    u32,
    Seq<char>,
> {
    match param {
        ParamRef::Id(id) => Ok(id),
        ParamRef::Index(index) => if index >= count {
            Err("parameter index #"@ + decimal(index as nat) + " is out of range; the plugin has "@
                + decimal(count as nat))
        } else {
            match id_at_index {
                Some(id) => Ok(id),
                None => Err("parameter index #"@ + decimal(index as nat) + " has no info"@),
            }
        },
    }
}

/// Resolves a parameter reference to the plug-in's own parameter ID: an
/// index goes through what the plug-in lists at that position, so `#0` means
/// whatever `params` printed as `[0]`.
pub fn resolve_param_ref(param: ParamRef, count: u32, id_at_index: Option<u32>) -> (r: Result<
    u32,
    String,
>)
    ensures
        match (r, resolved_param(param, count, id_at_index)) {
            (Ok(a), Ok(b)) => a == b,
            (Err(m), Err(t)) => m@ == t,
            _ => false,
        },
{
    match param {
        ParamRef::Id(id) => Ok(id),
        ParamRef::Index(index) => {
            if index >= count {
                let mut m = String::new();
                m.append("parameter index #");
                push_decimal(&mut m, index as u64);
                m.append(" is out of range; the plugin has ");
                push_decimal(&mut m, count as u64);
                return Err(m);
            }
            match id_at_index {
                Some(id) => Ok(id),
                None => {
                    let mut m = String::new();
                    m.append("parameter index #");
                    push_decimal(&mut m, index as u64);
                    m.append(" has no info");
                    Err(m)
                },
            }
        },
    }
}

// ------------------------------------------------------------ numeric operands

/// What the number parser makes of an operand.
#[derive(Copy, Clone, Debug, PartialEq, Eq, Structural)]
pub enum NumberCheck {
    /// Not a number at all.
    NotANumber,
    /// A number that is infinite or not a number (`inf`, `NaN`).
    NotFinite,
    /// A finite number below zero.
    Negative,
    /// A finite number that is not below zero (`-0` among them).
    NonNegative,
}

/// Why an operand is refused, if it is: it must be a finite number.
pub open spec fn number_fault(head: Seq<char>, what: Seq<char>, text: Seq<char>, check: NumberCheck) -> Option<
    Seq<char>,
> {
    match check {
        NumberCheck::NotANumber => Some(head + ": "@ + what + " '"@ + text + "' is not a number"@),
        NumberCheck::NotFinite => Some(head + ": "@ + what + " '"@ + text + "' is not finite"@),
        _ => None,
    }
}

/// Why a parsed line's numeric operands are refused, if they are, given
/// what the number parser makes of the value and of the tolerance, and how
/// the tolerance prints as a number: values must be finite, and a tolerance
/// finite and not negative.
pub open spec fn operand_fault(
    command: CommandView,
    value: NumberCheck,
    tolerance: NumberCheck,
    tolerance_shown: Seq<char>,
) -> Option<Seq<char>> {
    match command {
        CommandView::SetValue { value: text, .. } => number_fault("set"@, "value"@, text, value),
        CommandView::Expect { value: text, tolerance: given, .. } => match number_fault(
            "expect"@,
            "value"@,
            text,
            value,
        ) {
            Some(e) => Some(e),
            None => match given {
                None => None,
                Some(t) => match number_fault("expect"@, "tolerance"@, t, tolerance) {
                    Some(e) => Some(e),
                    None => if tolerance == NumberCheck::Negative {
                        Some("expect: tolerance "@ + tolerance_shown + " is negative"@)
                    } else {
                        None
                    },
                },
            },
        },
        _ => None,
    }
}

fn number_refusal(head: &str, what: &str, text: &str, check: NumberCheck) -> (r: Option<String>)
    ensures
        match r {
            None => number_fault(head@, what@, text@, check) is None,
            Some(m) => number_fault(head@, what@, text@, check) == Some(m@),
        },
{
    match check {
        NumberCheck::NotANumber => {
            let mut m = head.to_owned();
            m.append(": ");
            m.append(what);
            m.append(" '");
            m.append(text);
            m.append("' is not a number");
            Some(m)
        },
        NumberCheck::NotFinite => {
            let mut m = head.to_owned();
            m.append(": ");
            m.append(what);
            m.append(" '");
            m.append(text);
            m.append("' is not finite");
            Some(m)
        },
        _ => None,
    }
}

/// Checks a parsed line's numeric operands: a `set` or `expect` value must
/// be a finite number, and an `expect` tolerance a finite number that is
/// not negative. `value` and `tolerance` are what the number parser makes
/// of those operands; `tolerance_shown` is the tolerance as the number
/// prints.
pub fn check_operands(
    command: &Command,
    value: NumberCheck,
    tolerance: NumberCheck,
    tolerance_shown: &str,
) -> (r: Result<(), String>)
    ensures
        match r {
            Ok(()) => operand_fault(command@, value, tolerance, tolerance_shown@) is None,
            Err(m) => operand_fault(command@, value, tolerance, tolerance_shown@) == Some(m@),
        },
{
    match command {
        Command::SetValue { value: text, .. } => match number_refusal(
            "set",
            "value",
            text.as_str(),
            value,
        ) {
            Some(m) => Err(m),
            None => Ok(()),
        },
        Command::Expect { value: text, tolerance: given, .. } => {
            if let Some(m) = number_refusal("expect", "value", text.as_str(), value) {
                return Err(m);
            }
            match given {
                None => Ok(()),
                Some(t) => {
                    if let Some(m) = number_refusal("expect", "tolerance", t.as_str(), tolerance) {
                        return Err(m);
                    }
                    if tolerance == NumberCheck::Negative {
                        let mut m = "expect: tolerance ".to_string();
                        m.append(tolerance_shown);
                        m.append(" is negative");
                        Err(m)
                    } else {
                        Ok(())
                    }
                },
            }
        },
        _ => Ok(()),
    }
}

/// The tolerance `expect` uses when a line gives none, as the number
/// parser reads it: one millionth.
pub open spec fn default_tolerance_text() -> Seq<char> {
    "1e-6"@
}

/// The tolerance an `expect` line compares within: the one it gives, or
/// else the default.
pub fn expect_tolerance(given: &Option<String>) -> (t: String)
    ensures
        t@ == match given {
            Some(g) => g@,
            None => default_tolerance_text(),
        },
{
    match given {
        Some(g) => g.clone(),
        None => "1e-6".to_string(),
    }
}

/// A parsed line with the default tolerance filled in where an `expect`
/// line gives none.
pub open spec fn with_default_tolerance(c: CommandView) -> CommandView {
    match c {
        CommandView::Expect { param, value, tolerance: None } => CommandView::Expect {
            param,
            value,
            tolerance: Some(default_tolerance_text()),
        },
        _ => c,
    }
}

/// What a line of the session language comes to once its numeric operands
/// are judged: the parse's refusal, nothing for a blank or comment line,
/// the operands' refusal, or the command with the default tolerance
/// filled in.
pub open spec fn checked_command_spec(
    parsed: Result<Option<CommandView>, Seq<char>>,
    value: NumberCheck,
    tolerance: NumberCheck,
    tolerance_shown: Seq<char>,
) -> Result<Option<CommandView>, Seq<char>> {
    match parsed {
        Err(e) => Err(e),
        Ok(None) => Ok(None),
        Ok(Some(c)) => match operand_fault(c, value, tolerance, tolerance_shown) {
            Some(m) => Err(m),
            None => Ok(Some(with_default_tolerance(c))),
        },
    }
}

/// Finishes a parsed line as the session host does: `value` and
/// `tolerance` are what the number parser makes of the line's value and
/// tolerance operands (ignored where the line has none), and
/// `tolerance_shown` how the tolerance prints as a number. A `set` or
/// `expect` value must be a finite number and an `expect` tolerance a
/// finite number that is not negative; an `expect` line without one gets
/// the default.
pub fn checked_command(
    parsed: Result<Option<Command>, String>,
    value: NumberCheck,
    tolerance: NumberCheck,
    tolerance_shown: &str,
) -> (r: Result<Option<Command>, String>)
    ensures
        command_result_view(r) == checked_command_spec(
            command_result_view(parsed),
            value,
            tolerance,
            tolerance_shown@,
        ),
{
    match parsed {
        Err(e) => Err(e),
        Ok(None) => Ok(None),
        Ok(Some(c)) => {
            match check_operands(&c, value, tolerance, tolerance_shown) {
                Err(m) => Err(m),
                Ok(()) => match c {
                    Command::Expect { param, value, tolerance: None } => {
                        let t = expect_tolerance(&None);
                        Ok(Some(Command::Expect { param, value, tolerance: Some(t) }))
                    },
                    other => Ok(Some(other)),
                },
            }
        },
    }
}

} // verus!
