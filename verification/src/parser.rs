//! The script of a scene: lines of dialogue and commands in brackets.

use crate::vn_mode::same_text;
use crate::vn_mode::EventView;
use crate::vn_mode::VNEvent;
use crate::vn_mode::Side;
use crate::vn_mode::Speaker;
use crate::vn_mode::SpeakerEvent;
use vstd::prelude::*;
use vstd::std_specs::iter::IteratorSpec;
use vstd::string::*;

verus! {

/// The characters of a text, one by one.
pub fn chars_of(text: &str) -> (chars: Vec<char>)
    ensures
        chars@ == text@,
{
    broadcast use vstd::string::axiom_spec_iter, vstd::string::next_postcondition;

    let mut chars: Vec<char> = Vec::new();
    let mut rest = text.chars();
    loop
        invariant
            rest.obeys_prophetic_iter_laws(),
            rest.decrease() is Some,
            chars@ + rest.remaining() == text@,
        decreases rest.decrease()->0,
    {
        let ghost before = rest.remaining();
        match rest.next() {
            Some(c) => {
                chars.push(c);
                assert(chars@ + rest.remaining() =~= text@) by {
                    assert(before =~= seq![c] + before.drop_first());
                }
            },
            None => {
                assert(chars@ =~= text@);
                return chars;
            },
        }
    }
}


/// Whether `c` is white space, as Unicode has it.
pub open spec fn is_space(c: char) -> bool {
    let u = c as u32;
    (0x09 <= u <= 0x0D) || u == 0x20 || u == 0x85 || u == 0xA0 || u == 0x1680 || (0x2000 <= u
        <= 0x200A) || u == 0x2028 || u == 0x2029 || u == 0x202F || u == 0x205F || u == 0x3000
}

/// `s` without the white space at its front.
pub open spec fn skip_front(s: Seq<char>) -> Seq<char>
    decreases s.len(),
{
    if s.len() > 0 && is_space(s[0]) {
        skip_front(s.drop_first())
    } else {
        s
    }
}

/// `s` without the white space at its end.
pub open spec fn skip_back(s: Seq<char>) -> Seq<char>
    decreases s.len(),
{
    if s.len() > 0 && is_space(s.last()) {
        skip_back(s.drop_last())
    } else {
        s
    }
}

/// `s` without the white space at either end.
pub open spec fn trimmed(s: Seq<char>) -> Seq<char> {
    skip_back(skip_front(s))
}

/// The place of the first `c` in `s` at or behind `from`; the length of `s`
/// where there is none.
pub open spec fn first_at(s: Seq<char>, c: char, from: int) -> int
    decreases s.len() - from,
{
    if from < 0 || from >= s.len() {
        s.len() as int
    } else if s[from] == c {
        from
    } else {
        first_at(s, c, from + 1)
    }
}

/// The place of the first `=>` in `s` at or behind `from`; the length of
/// `s` where there is none.
pub open spec fn first_arrow(s: Seq<char>, from: int) -> int
    decreases s.len() - from,
{
    if from < 0 || from + 1 >= s.len() {
        s.len() as int
    } else if s[from] == '=' && s[from + 1] == '>' {
        from
    } else {
        first_arrow(s, from + 1)
    }
}

/// A stretch of a text: the place of its first character and the place
/// behind its last.
#[derive(Clone, Copy, Debug)]
pub struct Span {
    pub from: usize,
    pub to: usize,
}

/// The characters of a stretch.
pub open spec fn stretch(s: Seq<char>, span: Span) -> Seq<char> {
    s.subrange(span.from as int, span.to as int)
}

/// Whether a stretch lies within a text of `len` characters.
pub open spec fn fits(span: Span, len: nat) -> bool {
    span.from <= span.to <= len
}

fn space(c: char) -> (r: bool)
    ensures
        r == is_space(c),
{
    let u = c as u32;
    (0x09 <= u && u <= 0x0D) || u == 0x20 || u == 0x85 || u == 0xA0 || u == 0x1680 || (0x2000 <= u
        && u <= 0x200A) || u == 0x2028 || u == 0x2029 || u == 0x202F || u == 0x205F || u == 0x3000
}

/// The stretch without the white space at either end.
fn trim_span(chars: &Vec<char>, span: Span) -> (r: Span)
    requires
        fits(span, chars@.len()),
    ensures
        fits(r, chars@.len()),
        span.from <= r.from,
        r.to <= span.to,
        stretch(chars@, r) == trimmed(stretch(chars@, span)),
{
    let mut from = span.from;
    while from < span.to && space(chars[from])
        invariant
            span.from <= from <= span.to <= chars@.len(),
            skip_front(chars@.subrange(from as int, span.to as int)) == skip_front(
                stretch(chars@, span),
            ),
        decreases span.to - from,
    {
        assert(chars@.subrange(from as int, span.to as int).drop_first() =~= chars@.subrange(
            from + 1,
            span.to as int,
        ));
        from += 1;
    }
    assert(skip_front(stretch(chars@, span)) == chars@.subrange(from as int, span.to as int));
    let mut to = span.to;
    while from < to && space(chars[to - 1])
        invariant
            span.from <= from <= to <= span.to <= chars@.len(),
            skip_back(chars@.subrange(from as int, to as int)) == trimmed(stretch(chars@, span)),
        decreases to - from,
    {
        assert(chars@.subrange(from as int, to as int).drop_last() =~= chars@.subrange(
            from as int,
            to - 1,
        ));
        to -= 1;
    }
    Span { from, to }
}

/// The place of the first `c` in the stretch; the end of the stretch where
/// there is none.
fn find_char(chars: &Vec<char>, span: Span, c: char) -> (at: usize)
    requires
        fits(span, chars@.len()),
    ensures
        span.from <= at <= span.to,
        at - span.from == first_at(stretch(chars@, span), c, 0),
{
    let ghost s = stretch(chars@, span);
    let mut at = span.from;
    while at < span.to && chars[at] != c
        invariant
            span.from <= at <= span.to <= chars@.len(),
            s == stretch(chars@, span),
            first_at(s, c, 0) == first_at(s, c, at - span.from),
        decreases span.to - at,
    {
        assert(s[at - span.from] == chars@[at as int]);
        at += 1;
    }
    proof {
        if at < span.to {
            assert(s[at - span.from] == chars@[at as int]);
        }
    }
    at
}

/// The place of the first `=>` in the stretch; the end of the stretch
/// where there is none.
fn find_arrow(chars: &Vec<char>, span: Span) -> (at: usize)
    requires
        fits(span, chars@.len()),
    ensures
        span.from <= at <= span.to,
        at - span.from == first_arrow(stretch(chars@, span), 0),
        at < span.to ==> at + 2 <= span.to,
{
    let ghost s = stretch(chars@, span);
    let mut at = span.from;
    while span.to - at >= 2 && !(chars[at] == '=' && chars[at + 1] == '>')
        invariant
            span.from <= at <= span.to <= chars@.len(),
            s == stretch(chars@, span),
            first_arrow(s, 0) == first_arrow(s, at - span.from),
        decreases span.to - at,
    {
        assert(s[at - span.from] == chars@[at as int]);
        assert(s[at - span.from + 1] == chars@[at + 1]);
        at += 1;
    }
    if span.to - at >= 2 {
        proof {
            assert(s[at - span.from] == chars@[at as int]);
            assert(s[at - span.from + 1] == chars@[at + 1]);
        }
        at
    } else {
        span.to
    }
}


/// The stretch as a text of its own.
fn cut(text: &str, span: Span) -> (r: String)
    requires
        fits(span, text@.len()),
    ensures
        r@ == stretch(text@, span),
{
    String::from_str(text.substring_char(span.from, span.to))
}

/// Why a script was refused.
#[derive(Debug, PartialEq)]
pub enum VNParseError {
    /// There is no scene of this name.
    InvalidScenePath(String),
    /// The line does not open with `[` and close with `]`.
    MismatchedBrackets(String),
    /// The command in the brackets is not known.
    UnrecognizedCommand(String),
    /// The command does not take these arguments.
    InvalidArguments(String, String),
}

/// Why a script was refused, as contracts see it: texts as their
/// characters.
pub enum ParseFault {
    InvalidScenePath(Seq<char>),
    MismatchedBrackets(Seq<char>),
    UnrecognizedCommand(Seq<char>),
    InvalidArguments(Seq<char>, Seq<char>),
}

impl View for VNParseError {
    type V = ParseFault;

    open spec fn view(&self) -> ParseFault {
        match *self {
            VNParseError::InvalidScenePath(path) => ParseFault::InvalidScenePath(path@),
            VNParseError::MismatchedBrackets(line) => ParseFault::MismatchedBrackets(line@),
            VNParseError::UnrecognizedCommand(command) => ParseFault::UnrecognizedCommand(
                command@,
            ),
            VNParseError::InvalidArguments(command, args) => ParseFault::InvalidArguments(
                command@,
                args@,
            ),
        }
    }
}

/// A line in brackets, taken apart: the command, and what follows its
/// colon.
#[derive(PartialEq, Debug)]
pub struct VNBracketParse {
    pub command: String,
    pub args: Option<String>,
}

/// A line in brackets as contracts see it.
pub struct Bracket {
    pub command: Seq<char>,
    pub args: Option<Seq<char>>,
}

impl View for VNBracketParse {
    type V = Bracket;

    open spec fn view(&self) -> Bracket {
        Bracket {
            command: self.command@,
            args: match self.args {
                Some(args) => Some(args@),
                None => None,
            },
        }
    }
}

/// Whether a line opens with `[` and closes with `]`.
pub open spec fn bracketed(line: Seq<char>) -> bool {
    line.len() > 0 && line.first() == '[' && line.last() == ']'
}

/// A line in brackets taken apart. What stands between the brackets is cut
/// at its colons: the first piece is the command, the second, where there
/// is one, the arguments; further pieces are not looked at. Both are
/// stripped of the white space around them. A line that is not in brackets
/// has no parts.
pub open spec fn bracket_of(line: Seq<char>) -> Option<Bracket> {
    if !bracketed(line) {
        None
    } else {
        let inner = line.subrange(1, line.len() - 1);
        let colon = first_at(inner, ':', 0);
        let command = trimmed(inner.subrange(0, colon));
        if colon == inner.len() {
            Some(Bracket { command, args: None })
        } else {
            let rest = inner.subrange(colon + 1, inner.len() as int);
            Some(
                Bracket {
                    command,
                    args: Some(trimmed(rest.subrange(0, first_at(rest, ':', 0)))),
                },
            )
        }
    }
}

/// Whether the stretch opens with `[` and closes with `]`.
fn bracketed_span(chars: &Vec<char>, line: Span) -> (r: bool)
    requires
        fits(line, chars@.len()),
    ensures
        r == bracketed(stretch(chars@, line)),
{
    line.from < line.to && chars[line.from] == '[' && chars[line.to - 1] == ']'
}

/// Takes the stretch `line` of `text` apart.
fn bracket_in(text: &str, chars: &Vec<char>, line: Span) -> (r: Result<
    VNBracketParse,
    VNParseError,
>)
    requires
        chars@ == text@,
        fits(line, chars@.len()),
    ensures
        match bracket_of(stretch(chars@, line)) {
            Some(b) => r is Ok && r->Ok_0@ == b,
            None => r is Err && r->Err_0@ == ParseFault::MismatchedBrackets(
                stretch(chars@, line),
            ),
        },
{
    if !bracketed_span(chars, line) {
        return Err(VNParseError::MismatchedBrackets(cut(text, line)));
    }
    let ghost whole = stretch(chars@, line);
    let inner = Span { from: line.from + 1, to: line.to - 1 };
    let ghost within = whole.subrange(1, whole.len() - 1);
    assert(stretch(chars@, inner) =~= within);
    let colon = find_char(chars, inner, ':');
    let head = trim_span(chars, Span { from: inner.from, to: colon });
    assert(stretch(chars@, Span { from: inner.from, to: colon }) =~= within.subrange(
        0,
        colon - inner.from,
    ));
    let command = cut(text, head);
    if colon == inner.to {
        return Ok(VNBracketParse { command, args: None });
    }
    let rest = Span { from: colon + 1, to: inner.to };
    let ghost behind = within.subrange(colon - inner.from + 1, within.len() as int);
    assert(stretch(chars@, rest) =~= behind);
    let second = find_char(chars, rest, ':');
    let tail = trim_span(chars, Span { from: rest.from, to: second });
    assert(stretch(chars@, Span { from: rest.from, to: second }) =~= behind.subrange(
        0,
        second - rest.from,
    ));
    let args = cut(text, tail);
    Ok(VNBracketParse { command, args: Some(args) })
}

/// Whether the line opens with `[` and closes with `]`.
pub fn is_bracketed(input: &str) -> (r: bool)
    ensures
        r == bracketed(input@),
{
    let chars = chars_of(input);
    let whole = Span { from: 0, to: chars.len() };
    assert(stretch(chars@, whole) =~= input@);
    bracketed_span(&chars, whole)
}

/// What a scene's script can ask for in brackets.
#[derive(Debug, PartialEq)]
pub enum VNParseCommand {
    /// From now on the first name stands for the second.
    SpeakerRename(String, String),
    /// The lines that follow are spoken by this speaker.
    DefineSpeaker(Speaker),
    /// The background changes to the one of this name.
    ChangeBackground(String),
    /// The speaker's portrait appears or hides.
    SpeakerDisplayEvent(SpeakerEvent),
    /// A command that is known and does nothing yet.
    UnimplementedCommand(String),
}

/// A command as contracts see it: texts as their characters.
pub enum Command {
    SpeakerRename(Seq<char>, Seq<char>),
    DefineSpeaker(Seq<char>),
    ChangeBackground(Seq<char>),
    SpeakerDisplayEvent(SpeakerEvent),
    UnimplementedCommand(Seq<char>),
}

impl View for VNParseCommand {
    type V = Command;

    open spec fn view(&self) -> Command {
        match *self {
            VNParseCommand::SpeakerRename(from, to) => Command::SpeakerRename(from@, to@),
            VNParseCommand::DefineSpeaker(speaker) => Command::DefineSpeaker(speaker@),
            VNParseCommand::ChangeBackground(key) => Command::ChangeBackground(key@),
            VNParseCommand::SpeakerDisplayEvent(event) => Command::SpeakerDisplayEvent(event),
            VNParseCommand::UnimplementedCommand(command) => Command::UnimplementedCommand(
                command@,
            ),
        }
    }
}

/// What a definition says: `real => alias` makes `alias` stand for `real`.
/// There must be exactly one arrow; both names are stripped of the white
/// space around them.
pub open spec fn definition_of(command: Seq<char>, args: Seq<char>) -> Result<Command, ParseFault> {
    let arrow = first_arrow(args, 0);
    if arrow < args.len() && first_arrow(args.subrange(arrow + 2, args.len() as int), 0)
        == args.len() - (arrow + 2) {
        Ok(
            Command::SpeakerRename(
                trimmed(args.subrange(arrow + 2, args.len() as int)),
                trimmed(args.subrange(0, arrow)),
            ),
        )
    } else {
        Err(ParseFault::InvalidArguments(command, args))
    }
}

/// What a line in brackets asks for.
pub open spec fn command_of(b: Bracket) -> Result<Command, ParseFault> {
    if b.command == "DEFINE"@ {
        match b.args {
            Some(args) => definition_of(b.command, args),
            None => Err(ParseFault::InvalidArguments(b.command, "no args provided"@)),
        }
    } else if b.command == "SCENE"@ {
        match b.args {
            Some(args) => Ok(Command::ChangeBackground(args)),
            None => Err(ParseFault::InvalidArguments(b.command, "no args provided"@)),
        }
    } else if b.command == "APPEAR"@ {
        match b.args {
            Some(args) => if args == "LEFT"@ {
                Ok(Command::SpeakerDisplayEvent(SpeakerEvent::Appear(Side::Left)))
            } else if args == "RIGHT"@ {
                Ok(Command::SpeakerDisplayEvent(SpeakerEvent::Appear(Side::Right)))
            } else {
                Err(ParseFault::InvalidArguments(b.command, args))
            },
            None => Err(ParseFault::InvalidArguments(b.command, "no args provided"@)),
        }
    } else if b.command == "HIDE"@ {
        Ok(Command::SpeakerDisplayEvent(SpeakerEvent::Hide))
    } else if b.command == "SOUND_LOOP"@ {
        Ok(Command::UnimplementedCommand(b.command))
    } else {
        match Speaker::name_for_key(b.command) {
            Some(name) => Ok(Command::DefineSpeaker(name)),
            None => Err(ParseFault::UnrecognizedCommand(b.command)),
        }
    }
}

impl VNBracketParse {
    /// Takes a line in brackets apart. A line that is not in brackets is
    /// refused as mismatched.
    pub fn parse_line(input: &str) -> (r: Result<Self, VNParseError>)
        ensures
            match bracket_of(input@) {
                Some(b) => r is Ok && r->Ok_0@ == b,
                None => r is Err && r->Err_0@ == ParseFault::MismatchedBrackets(input@),
            },
    {
        let chars = chars_of(input);
        let whole = Span { from: 0, to: chars.len() };
        assert(stretch(chars@, whole) =~= input@);
        bracket_in(input, &chars, whole)
    }

    /// The fault of a command that does not take its arguments.
    pub fn arg_error(&self) -> (e: VNParseError)
        ensures
            e@ == ParseFault::InvalidArguments(
                self@.command,
                match self@.args {
                    Some(args) => args,
                    None => "NO ARGS PROVIDED"@,
                },
            ),
    {
        match &self.args {
            Some(args) => VNParseError::InvalidArguments(self.command.clone(), args.clone()),
            None => VNParseError::InvalidArguments(
                self.command.clone(),
                String::from_str("NO ARGS PROVIDED"),
            ),
        }
    }

    /// Whether the command came with arguments; the fault where it did not.
    pub fn has_args(&self) -> (r: Result<(), VNParseError>)
        ensures
            self@.args is Some ==> r is Ok,
            self@.args is None ==> r is Err && r->Err_0@ == ParseFault::InvalidArguments(
                self@.command,
                "no args provided"@,
            ),
    {
        match &self.args {
            Some(_) => Ok(()),
            None => Err(
                VNParseError::InvalidArguments(
                    self.command.clone(),
                    String::from_str("no args provided"),
                ),
            ),
        }
    }

    /// The two names of a definition.
    fn definition(&self, args: &String) -> (r: Result<VNParseCommand, VNParseError>)
        ensures
            match definition_of(self@.command, args@) {
                Ok(c) => r is Ok && r->Ok_0@ == c,
                Err(e) => r is Err && r->Err_0@ == e,
            },
    {
        let text = args.as_str();
        let chars = chars_of(text);
        let whole = Span { from: 0, to: chars.len() };
        assert(stretch(chars@, whole) =~= args@);
        let arrow = find_arrow(&chars, whole);
        if arrow == chars.len() {
            return Err(VNParseError::InvalidArguments(self.command.clone(), args.clone()));
        }
        let behind = Span { from: arrow + 2, to: chars.len() };
        assert(stretch(chars@, behind) =~= args@.subrange(arrow + 2, args@.len() as int));
        let second = find_arrow(&chars, behind);
        if second != chars.len() {
            return Err(VNParseError::InvalidArguments(self.command.clone(), args.clone()));
        }
        let before = Span { from: 0, to: arrow };
        assert(stretch(chars@, before) =~= args@.subrange(0, arrow as int));
        let name = cut(text, trim_span(&chars, before));
        let alias = cut(text, trim_span(&chars, behind));
        Ok(VNParseCommand::SpeakerRename(alias, name))
    }

    /// What the line asks for. A command that is not known may be the key
    /// of a speaker; anything else is refused.
    pub fn to_vn_parse_command(&self) -> (r: Result<VNParseCommand, VNParseError>)
        ensures
            match command_of(self@) {
                Ok(c) => r is Ok && r->Ok_0@ == c,
                Err(e) => r is Err && r->Err_0@ == e,
            },
    {
        let command = self.command.as_str();
        if same_text(command, "DEFINE") {
            match &self.args {
                Some(args) => self.definition(args),
                None => self.missing_args(),
            }
        } else if same_text(command, "SCENE") {
            match &self.args {
                Some(args) => Ok(VNParseCommand::ChangeBackground(args.clone())),
                None => self.missing_args(),
            }
        } else if same_text(command, "APPEAR") {
            match &self.args {
                Some(args) => {
                    if same_text(args.as_str(), "LEFT") {
                        Ok(VNParseCommand::SpeakerDisplayEvent(SpeakerEvent::Appear(Side::Left)))
                    } else if same_text(args.as_str(), "RIGHT") {
                        Ok(VNParseCommand::SpeakerDisplayEvent(SpeakerEvent::Appear(Side::Right)))
                    } else {
                        Err(self.arg_error())
                    }
                },
                None => self.missing_args(),
            }
        } else if same_text(command, "HIDE") {
            Ok(VNParseCommand::SpeakerDisplayEvent(SpeakerEvent::Hide))
        } else if same_text(command, "SOUND_LOOP") {
            Ok(VNParseCommand::UnimplementedCommand(self.command.clone()))
        } else {
            match Speaker::from_key(command) {
                Ok(speaker) => Ok(VNParseCommand::DefineSpeaker(speaker)),
                Err(_) => Err(VNParseError::UnrecognizedCommand(self.command.clone())),
            }
        }
    }

    /// The fault of a command that came without the arguments it needs.
    fn missing_args(&self) -> (r: Result<VNParseCommand, VNParseError>)
        ensures
            r is Err,
            r->Err_0@ == ParseFault::InvalidArguments(self@.command, "no args provided"@),
    {
        Err(
            VNParseError::InvalidArguments(
                self.command.clone(),
                String::from_str("no args provided"),
            ),
        )
    }
}


/// A definition of a script: `from` stands for `to`.
#[derive(Debug, PartialEq)]
pub struct Rename {
    pub from: String,
    pub to: String,
}

/// A definition as contracts see it.
pub struct RenameView {
    pub from: Seq<char>,
    pub to: Seq<char>,
}

/// The definitions as contracts see them.
pub open spec fn renames_of(renames: Seq<Rename>) -> Seq<RenameView> {
    renames.map_values(|r: Rename| RenameView { from: r.from@, to: r.to@ })
}

/// The place of the latest of the first `n` definitions of `name`.
pub open spec fn latest(renames: Seq<RenameView>, name: Seq<char>, n: nat) -> Option<int>
    decreases n,
{
    if n == 0 {
        None
    } else if renames[n - 1].from == name {
        Some(n - 1)
    } else {
        latest(renames, name, (n - 1) as nat)
    }
}

/// What `name` stands for after at most `fuel` definitions were followed,
/// each time the latest one of the name at hand.
pub open spec fn resolved(renames: Seq<RenameView>, name: Seq<char>, fuel: nat) -> Seq<char>
    decreases fuel,
{
    if fuel == 0 {
        name
    } else {
        match latest(renames, name, renames.len()) {
            Some(i) => resolved(renames, renames[i].to, (fuel - 1) as nat),
            None => name,
        }
    }
}

/// The place of the latest definition of `name`.
fn look_up(renames: &Vec<Rename>, name: &str) -> (found: Option<usize>)
    ensures
        match latest(renames_of(renames@), name@, renames@.len()) {
            Some(i) => found == Some(i as usize) && 0 <= i < renames@.len(),
            None => found is None,
        },
{
    let ghost views = renames_of(renames@);
    let mut n = renames.len();
    while n > 0
        invariant
            n <= renames@.len(),
            views == renames_of(renames@),
            latest(views, name@, renames@.len()) == latest(views, name@, n as nat),
        decreases n,
    {
        if same_text(renames[n - 1].from.as_str(), name) {
            return Some(n - 1);
        }
        n -= 1;
    }
    None
}

impl VNBracketParse {
    /// The line with its command replaced by what it stands for. The
    /// definitions are followed from name to name, for as many steps as
    /// there are definitions: names defined in a circle end there.
    pub fn with_redefines(&self, renames: &Vec<Rename>) -> (r: Self)
        ensures
            r@.args == self@.args,
            r@.command == resolved(renames_of(renames@), self@.command, renames@.len()),
    {
        let ghost views = renames_of(renames@);
        let mut command = self.command.clone();
        let mut steps: usize = 0;
        while steps < renames.len()
            invariant
                steps <= renames@.len(),
                views == renames_of(renames@),
                resolved(views, self@.command, renames@.len()) == resolved(
                    views,
                    command@,
                    (renames@.len() - steps) as nat,
                ),
            decreases renames@.len() - steps,
        {
            let ghost name = command@;
            let ghost fuel = (renames@.len() - steps) as nat;
            match look_up(renames, command.as_str()) {
                Some(i) => {
                    command = renames[i].to.clone();
                    steps += 1;
                    assert(resolved(views, name, fuel) == resolved(
                        views,
                        views[i as int].to,
                        (fuel - 1) as nat,
                    ));
                },
                None => {
                    steps = renames.len();
                    assert(resolved(views, name, fuel) == name);
                    assert(resolved(views, name, 0) == name);
                },
            }
        }
        let args = match &self.args {
            Some(args) => Some(args.clone()),
            None => None,
        };
        Self { command, args }
    }
}

/// `line` without a carriage return at its end.
pub open spec fn without_return(line: Seq<char>) -> Seq<char> {
    if line.len() > 0 && line.last() == '\r' {
        line.drop_last()
    } else {
        line
    }
}

/// The lines of what follows `at` in `s`, where the line at hand began at
/// `start`. A line ends at a line feed, and a carriage return before the
/// line feed goes with it; what follows the last line feed is a line too,
/// unless it is empty.
pub open spec fn lines_from(s: Seq<char>, at: int, start: int) -> Seq<Seq<char>>
    decreases s.len() - at,
{
    if at < 0 || at >= s.len() {
        if 0 <= start < s.len() {
            seq![s.subrange(start, s.len() as int)]
        } else {
            seq![]
        }
    } else if s[at] == '\n' {
        seq![without_return(s.subrange(start, at))] + lines_from(s, at + 1, at + 1)
    } else {
        lines_from(s, at + 1, start)
    }
}

/// The lines of a text.
pub open spec fn lines_of(s: Seq<char>) -> Seq<Seq<char>> {
    lines_from(s, 0, 0)
}

/// The stretches as texts.
pub open spec fn stretches(s: Seq<char>, spans: Seq<Span>) -> Seq<Seq<char>> {
    spans.map_values(|span: Span| stretch(s, span))
}

/// The lines of a text, as stretches of it.
fn line_spans(chars: &Vec<char>) -> (spans: Vec<Span>)
    ensures
        stretches(chars@, spans@) == lines_of(chars@),
        forall|i: int| 0 <= i < spans@.len() ==> fits(#[trigger] spans@[i], chars@.len()),
{
    let mut spans: Vec<Span> = Vec::new();
    let mut start: usize = 0;
    let mut at: usize = 0;
    assert(stretches(chars@, spans@) + lines_from(chars@, 0, 0) =~= lines_of(chars@));
    while at < chars.len()
        invariant
            start <= at <= chars@.len(),
            stretches(chars@, spans@) + lines_from(chars@, at as int, start as int) == lines_of(
                chars@,
            ),
            forall|i: int| 0 <= i < spans@.len() ==> fits(#[trigger] spans@[i], chars@.len()),
        decreases chars@.len() - at,
    {
        if chars[at] == '\n' {
            let to = if start < at && chars[at - 1] == '\r' {
                at - 1
            } else {
                at
            };
            let ghost before = stretches(chars@, spans@);
            let ghost line = chars@.subrange(start as int, at as int);
            proof {
                if start < at && chars@[at - 1] == '\r' {
                    assert(line.last() == '\r');
                    assert(line.drop_last() =~= chars@.subrange(start as int, to as int));
                } else if start < at {
                    assert(line.last() != '\r');
                }
            }
            spans.push(Span { from: start, to });
            assert(stretches(chars@, spans@) =~= before.push(without_return(line)));
            assert(stretches(chars@, spans@) + lines_from(chars@, at + 1, at + 1) =~= before + (
            seq![without_return(line)] + lines_from(chars@, at + 1, at + 1)));
            start = at + 1;
        }
        at += 1;
    }
    if start < chars.len() {
        let ghost before = stretches(chars@, spans@);
        spans.push(Span { from: start, to: chars.len() });
        assert(stretches(chars@, spans@) =~= before.push(
            chars@.subrange(start as int, chars@.len() as int),
        ));
    }
    assert(stretches(chars@, spans@) =~= lines_of(chars@));
    spans
}

/// What a script has said so far: its definitions, who speaks, the line
/// that is being put together, and the events.
pub struct Script {
    pub renames: Seq<RenameView>,
    pub speaker: Seq<char>,
    pub line: Seq<char>,
    pub events: Seq<EventView>,
}

/// A script before its first line: nothing defined, a speaker who was not
/// introduced, nothing said.
pub open spec fn script_start() -> Script {
    Script { renames: seq![], speaker: "???"@, line: seq![], events: seq![] }
}

/// The script after a command.
pub open spec fn after_command(st: Script, c: Command) -> Script {
    match c {
        Command::SpeakerRename(from, to) => Script {
            renames: st.renames.push(RenameView { from, to }),
            speaker: st.speaker,
            line: st.line,
            events: st.events,
        },
        Command::DefineSpeaker(name) => Script {
            renames: st.renames,
            speaker: name,
            line: st.line,
            events: st.events,
        },
        Command::ChangeBackground(key) => Script {
            renames: st.renames,
            speaker: st.speaker,
            line: st.line,
            events: st.events.push(EventView::ChangeBackground(key)),
        },
        Command::SpeakerDisplayEvent(event) => Script {
            renames: st.renames,
            speaker: st.speaker,
            line: st.line,
            events: st.events.push(EventView::ChangeSpeakerDisplay(st.speaker, event)),
        },
        Command::UnimplementedCommand(_) => st,
    }
}

/// The script after one more line.
///
/// - A line in brackets is a command: its command is replaced by what it
///   stands for, and then it is carried out.
/// - Any other line that is not empty is joined to the line that is being
///   put together, with nothing in between.
/// - An empty line ends the line that is being put together, which
///   becomes a line of dialogue of the speaker at hand; where nothing was
///   put together, nothing happens.
pub open spec fn after_line(st: Script, line: Seq<char>) -> Result<Script, ParseFault> {
    if bracketed(line) {
        match bracket_of(line) {
            None => Err(ParseFault::MismatchedBrackets(line)),
            Some(b) => match command_of(
                Bracket {
                    command: resolved(st.renames, b.command, st.renames.len()),
                    args: b.args,
                },
            ) {
                Ok(c) => Ok(after_command(st, c)),
                Err(e) => Err(e),
            },
        }
    } else if line.len() > 0 {
        Ok(
            Script {
                renames: st.renames,
                speaker: st.speaker,
                line: st.line + line,
                events: st.events,
            },
        )
    } else if st.line.len() > 0 {
        Ok(
            Script {
                renames: st.renames,
                speaker: st.speaker,
                line: seq![],
                events: st.events.push(EventView::Dialogue(st.speaker, st.line)),
            },
        )
    } else {
        Ok(st)
    }
}

/// The script after the first `n` of the lines; the first fault ends it.
pub open spec fn after_lines(st: Script, lines: Seq<Seq<char>>, n: nat) -> Result<
    Script,
    ParseFault,
>
    decreases n,
{
    if n == 0 {
        Ok(st)
    } else {
        match after_lines(st, lines, (n - 1) as nat) {
            Ok(before) => after_line(before, lines[n - 1]),
            Err(e) => Err(e),
        }
    }
}

/// The events of a script, or the first fault in it. A line that is still
/// being put together when the script ends is not spoken.
pub open spec fn parsed(text: Seq<char>) -> Result<Seq<EventView>, ParseFault> {
    match after_lines(script_start(), lines_of(text), lines_of(text).len()) {
        Ok(st) => Ok(st.events),
        Err(e) => Err(e),
    }
}

/// The events as contracts see them.
pub open spec fn events_of(events: Seq<VNEvent>) -> Seq<EventView> {
    events.map_values(|e: VNEvent| e@)
}

proof fn lemma_fault_stays(st: Script, lines: Seq<Seq<char>>, k: nat, n: nat)
    requires
        k <= n,
        after_lines(st, lines, k) is Err,
    ensures
        after_lines(st, lines, n) == after_lines(st, lines, k),
    decreases n,
{
    if n > k {
        lemma_fault_stays(st, lines, k, (n - 1) as nat);
    }
}

/// Reads the script of a scene: its events in their order, or the first
/// fault in it.
pub fn parse_text(input: &str) -> (r: Result<Vec<VNEvent>, VNParseError>)
    ensures
        match parsed(input@) {
            Ok(events) => r is Ok && events_of(r->Ok_0@) == events,
            Err(e) => r is Err && r->Err_0@ == e,
        },
{
    let chars = chars_of(input);
    let spans = line_spans(&chars);
    let ghost lines = lines_of(input@);
    let mut renames: Vec<Rename> = Vec::new();
    let mut result: Vec<VNEvent> = Vec::new();
    let mut current_speaker = Speaker::unknown();
    let mut current_line = String::new();
    let mut i: usize = 0;
    assert(renames_of(renames@) =~= Seq::<RenameView>::empty());
    assert(events_of(result@) =~= Seq::<EventView>::empty());
    assert(current_line@ =~= Seq::<char>::empty());
    while i < spans.len()
        invariant
            i <= spans@.len(),
            chars@ == input@,
            lines == lines_of(input@),
            stretches(chars@, spans@) == lines,
            forall|k: int| 0 <= k < spans@.len() ==> fits(#[trigger] spans@[k], chars@.len()),
            after_lines(script_start(), lines, i as nat) == Ok::<Script, ParseFault>(
                Script {
                    renames: renames_of(renames@),
                    speaker: current_speaker@,
                    line: current_line@,
                    events: events_of(result@),
                },
            ),
        decreases spans@.len() - i,
    {
        let span = spans[i];
        let ghost line = stretch(chars@, span);
        let ghost st = Script {
            renames: renames_of(renames@),
            speaker: current_speaker@,
            line: current_line@,
            events: events_of(result@),
        };
        assert(lines[i as int] == line);
        assert(after_lines(script_start(), lines, (i + 1) as nat) == after_line(st, line));
        if bracketed_span(&chars, span) {
            let parse = match bracket_in(input, &chars, span) {
                Ok(parse) => parse,
                Err(e) => {
                    proof {
                        lemma_fault_stays(script_start(), lines, (i + 1) as nat, lines.len());
                    }
                    return Err(e);
                },
            };
            let parse = parse.with_redefines(&renames);
            let command = match parse.to_vn_parse_command() {
                Ok(command) => command,
                Err(e) => {
                    proof {
                        lemma_fault_stays(script_start(), lines, (i + 1) as nat, lines.len());
                    }
                    return Err(e);
                },
            };
            let ghost before_renames = renames_of(renames@);
            let ghost before_events = events_of(result@);
            assert(bracket_of(line) is Some);
            assert(parse@ == (Bracket {
                command: resolved(st.renames, bracket_of(line)->Some_0.command, st.renames.len()),
                args: bracket_of(line)->Some_0.args,
            }));
            assert(after_line(st, line) == Ok::<Script, ParseFault>(after_command(st, command@)));
            match command {
                VNParseCommand::SpeakerRename(from, to) => {
                    renames.push(Rename { from, to });
                    assert(renames_of(renames@) =~= before_renames.push(
                        RenameView { from: from@, to: to@ },
                    ));
                },
                VNParseCommand::DefineSpeaker(new_speaker) => {
                    current_speaker = new_speaker;
                },
                VNParseCommand::ChangeBackground(new_bg_key) => {
                    result.push(VNEvent::ChangeBackground(new_bg_key));
                    assert(events_of(result@) =~= before_events.push(
                        EventView::ChangeBackground(new_bg_key@),
                    ));
                },
                VNParseCommand::SpeakerDisplayEvent(event) => {
                    result.push(VNEvent::ChangeSpeakerDisplay(current_speaker.duplicate(), event));
                    assert(events_of(result@) =~= before_events.push(
                        EventView::ChangeSpeakerDisplay(current_speaker@, event),
                    ));
                },
                VNParseCommand::UnimplementedCommand(_) => {},
            }
        } else if span.from < span.to {
            current_line.append(input.substring_char(span.from, span.to));
            assert(after_line(st, line) == Ok::<Script, ParseFault>(
                Script {
                    renames: st.renames,
                    speaker: st.speaker,
                    line: st.line + line,
                    events: st.events,
                },
            ));
        } else if !same_text(current_line.as_str(), "") {
            proof {
                reveal_strlit("");
                if current_line@.len() == 0 {
                    assert(current_line@ =~= ""@);
                }
            }
            let ghost before_events = events_of(result@);
            let spoken = current_line.clone();
            result.push(VNEvent::Dialogue(current_speaker.duplicate(), spoken));
            assert(events_of(result@) =~= before_events.push(
                EventView::Dialogue(current_speaker@, current_line@),
            ));
            current_line = String::new();
            assert(current_line@ =~= Seq::<char>::empty());
        } else {
            proof {
                reveal_strlit("");
                assert(current_line@.len() == 0);
            }
        }
        i += 1;
    }
    Ok(result)
}

} // verus!
