//! Reading the arguments of a command line.
use crate::engine::{backend_named, EngineBackend};
use crate::error::{message, ErrorView, InferError};
use crate::graph::FloatReading;
use crate::number::{
    parse_error_text, parse_i32, parse_unsigned, signed_value, unsigned_value,
};
use crate::text::{lower, str_eq, strings};
use vstd::prelude::*;
use vstd::string::*;

verus! {

/// What an argument is about.
#[derive(Debug, Clone, Copy, PartialEq, Eq, Structural)]
pub enum FlagId {
    Transformer,
    Codec,
    Tokenizer,
    Text,
    PromptText,
    PromptTextFile,
    PromptCodes,
    PromptCodesFormat,
    Output,
    MetadataOutput,
    Codes,
    Wav,
    WavInput,
    MaxNewTokens,
    Temperature,
    TopP,
    TopK,
    MinTokensBeforeEnd,
    Seed,
    Samples,
    Contains,
    Limit,
    Layer,
    Layers,
    Position,
    Tokens,
    Logits,
    Port,
    Backend,
    PrintPaths,
}

/// What follows a flag.
#[derive(Debug, Clone, Copy, PartialEq, Eq, Structural)]
pub enum FlagKind {
    /// Any text.
    Text,
    /// A number from zero up to a limit.
    Unsigned(u64),
    /// A number from one up to a limit.
    Positive(u64),
    /// A number of 32 bits that may be negative.
    Signed,
    /// A single-precision number.
    Float,
    /// The name of a backend.
    Backend,
    /// Nothing: the flag alone says it.
    Switch,
}

/// How a value that cannot be read is answered.
#[derive(Debug, Clone, Copy)]
pub enum Wording {
    /// With the reason alone.
    Plain,
    /// With a text and the reason.
    Behind(&'static str),
    /// With a text, the value and the reason.
    Quoting(&'static str),
    /// With a text alone.
    Fixed(&'static str),
}

/// A flag: its two names, what it is about, what follows it, what is said where nothing does, and
/// how a value that cannot be read is answered.
#[derive(Debug, Clone, Copy)]
pub struct Flag {
    pub name: &'static str,
    pub short: &'static str,
    pub id: FlagId,
    pub kind: FlagKind,
    pub missing: Option<&'static str>,
    pub wording: Wording,
}

/// What a flag was given.
#[derive(Debug)]
pub enum FlagValue {
    Text(String),
    Unsigned(u64),
    Signed(i32),
    Float(u32),
    Backend(EngineBackend),
    On,
    /// The flag stood last, without its value.
    Absent,
}

/// What a flag was given, as a mathematical value.
pub ghost enum ValueView {
    Text(Seq<char>),
    Unsigned(u64),
    Signed(i32),
    Float(u32),
    Backend(EngineBackend),
    On,
    Absent,
}

impl View for FlagValue {
    type V = ValueView;

    open spec fn view(&self) -> ValueView {
        match self {
            FlagValue::Text(t) => ValueView::Text(t@),
            FlagValue::Unsigned(n) => ValueView::Unsigned(*n),
            FlagValue::Signed(n) => ValueView::Signed(*n),
            FlagValue::Float(b) => ValueView::Float(*b),
            FlagValue::Backend(b) => ValueView::Backend(*b),
            FlagValue::On => ValueView::On,
            FlagValue::Absent => ValueView::Absent,
        }
    }
}

/// What flags were given, in order.
pub open spec fn given(found: Seq<(FlagId, FlagValue)>) -> Seq<(FlagId, ValueView)> {
    found.map_values(|p: (FlagId, FlagValue)| (p.0, p.1@))
}

/// What is said of a value that cannot be read.
pub open spec fn worded(w: Wording, value: Seq<char>, reason: Seq<char>) -> Seq<char> {
    match w {
        Wording::Plain => reason,
        Wording::Behind(text) => text@ + reason,
        Wording::Quoting(text) => text@ + value + ": "@ + reason,
        Wording::Fixed(text) => text@,
    }
}

fn word(w: Wording, value: &str, reason: &str) -> (r: InferError)
    ensures
        r@ == message(worded(w, value@, reason@)),
{
    InferError::Message(
        match w {
            Wording::Plain => String::from_str(reason),
            Wording::Behind(text) => String::from_str(text).concat(reason),
            Wording::Quoting(text) => String::from_str(text).concat(value).concat(": ").concat(
                reason,
            ),
            Wording::Fixed(text) => String::from_str(text),
        },
    )
}

/// What the text behind a flag stands for; for a floating-point number it is said from outside.
pub open spec fn value_of(flag: Flag, text: Seq<char>, float: FloatReading) -> Result<
    ValueView,
    ErrorView,
> {
    match flag.kind {
        FlagKind::Text => Ok(ValueView::Text(text)),
        FlagKind::Unsigned(max) => match unsigned_value(text, max as nat) {
            Ok(n) => Ok(ValueView::Unsigned(n as u64)),
            Err(e) => Err(message(worded(flag.wording, text, parse_error_text(e)))),
        },
        FlagKind::Positive(max) => match unsigned_value(text, max as nat) {
            Ok(n) => if n == 0 {
                Err(message(flag.name@ + " must be greater than zero"@))
            } else {
                Ok(ValueView::Unsigned(n as u64))
            },
            Err(e) => Err(message(worded(flag.wording, text, parse_error_text(e)))),
        },
        FlagKind::Signed => match signed_value(text, 0x8000_0000) {
            Ok(n) => Ok(ValueView::Signed(n as i32)),
            Err(e) => Err(message(worded(flag.wording, text, parse_error_text(e)))),
        },
        FlagKind::Float => match float {
            FloatReading::Value(bits, _) => Ok(ValueView::Float(bits)),
            FloatReading::Invalid(reason) => Err(message(worded(flag.wording, text, reason@))),
        },
        FlagKind::Backend => match backend_named(text) {
            Some(b) => Ok(ValueView::Backend(b)),
            None => Err(
                message(
                    "unknown backend: "@ + lower(text) + " (expected "@
                        + "rust-pure, ffi, or ffi-cuda"@ + ")"@,
                ),
            ),
        },
        FlagKind::Switch => Ok(ValueView::On),
    }
}

fn read_value(flag: Flag, text: &str, float: &FloatReading) -> (r: Result<FlagValue, InferError>)
    ensures
        match r {
            Ok(v) => value_of(flag, text@, *float) == Ok::<ValueView, ErrorView>(v@),
            Err(e) => value_of(flag, text@, *float) == Err::<ValueView, ErrorView>(e@),
        },
{
    match flag.kind {
        FlagKind::Text => Ok(FlagValue::Text(String::from_str(text))),
        FlagKind::Unsigned(max) => match parse_unsigned(text, max) {
            Ok(n) => Ok(FlagValue::Unsigned(n)),
            Err(e) => {
                let reason = e.message();
                Err(word(flag.wording, text, reason.as_str()))
            },
        },
        FlagKind::Positive(max) => match parse_unsigned(text, max) {
            Ok(n) => if n == 0 {
                Err(
                    InferError::Message(
                        String::from_str(flag.name).concat(" must be greater than zero"),
                    ),
                )
            } else {
                Ok(FlagValue::Unsigned(n))
            },
            Err(e) => {
                let reason = e.message();
                Err(word(flag.wording, text, reason.as_str()))
            },
        },
        FlagKind::Signed => match parse_i32(text) {
            Ok(n) => Ok(FlagValue::Signed(n)),
            Err(e) => {
                let reason = e.message();
                Err(word(flag.wording, text, reason.as_str()))
            },
        },
        FlagKind::Float => match float {
            FloatReading::Value(bits, _) => Ok(FlagValue::Float(*bits)),
            FloatReading::Invalid(reason) => Err(word(flag.wording, text, reason.as_str())),
        },
        FlagKind::Backend => match EngineBackend::parse(text) {
            Ok(b) => Ok(FlagValue::Backend(b)),
            Err(e) => Err(e),
        },
        FlagKind::Switch => Ok(FlagValue::On),
    }
}

/// How an argument that is no flag is answered.
#[derive(Debug, Clone, Copy)]
pub enum Stray {
    /// With a text and the argument, except where it asks for help.
    Named(&'static str),
    /// With a text alone.
    Fixed(&'static str),
}

/// The first flag from `i` on with a name.
pub open spec fn flag_named(flags: Seq<Flag>, name: Seq<char>, i: int) -> Option<Flag>
    decreases flags.len() - i,
{
    if i < 0 || i >= flags.len() {
        None
    } else if flags[i].name@ == name || flags[i].short@ == name {
        Some(flags[i])
    } else {
        flag_named(flags, name, i + 1)
    }
}

fn find_flag(flags: &Vec<Flag>, name: &str) -> (r: Option<Flag>)
    ensures
        r == flag_named(flags@, name@, 0),
{
    let mut i: usize = 0;
    while i < flags.len()
        invariant
            i <= flags@.len(),
            flag_named(flags@, name@, 0) == flag_named(flags@, name@, i as int),
        decreases flags@.len() - i,
    {
        let f: Flag = flags[i];
        if str_eq(f.name, name) || str_eq(f.short, name) {
            return Some(f);
        }
        i = i + 1;
    }
    None
}

/// What arguments from `i` on say, after what was found before: flags with their values in order,
/// nothing where help is asked for, or the error of the first argument that has one.
pub open spec fn flags_from(
    args: Seq<Seq<char>>,
    floats: Seq<FloatReading>,
    flags: Seq<Flag>,
    stray: Stray,
    i: int,
    found: Seq<(FlagId, ValueView)>,
) -> Result<Option<Seq<(FlagId, ValueView)>>, ErrorView>
    decreases args.len() - i,
{
    if i < 0 || i >= args.len() {
        Ok(Some(found))
    } else {
        match flag_named(flags, args[i], 0) {
            None => match stray {
                Stray::Named(text) => if args[i] == "--help"@ || args[i] == "-h"@ {
                    Ok(None)
                } else {
                    Err(message(text@ + args[i]))
                },
                Stray::Fixed(text) => Err(message(text@)),
            },
            Some(flag) => if flag.kind == FlagKind::Switch {
                flags_from(args, floats, flags, stray, i + 1, found.push((flag.id, ValueView::On)))
            } else if i + 1 >= args.len() {
                match flag.missing {
                    Some(text) => Err(message(text@)),
                    None => Ok(Some(found.push((flag.id, ValueView::Absent)))),
                }
            } else {
                match value_of(flag, args[i + 1], floats[i + 1]) {
                    Err(e) => Err(e),
                    Ok(v) => flags_from(args, floats, flags, stray, i + 2, found.push((flag.id, v))),
                }
            },
        }
    }
}

/// What arguments say.
#[derive(Debug)]
pub struct Given {
    pub values: Vec<(FlagId, FlagValue)>,
}

impl View for Given {
    type V = Seq<(FlagId, ValueView)>;

    open spec fn view(&self) -> Seq<(FlagId, ValueView)> {
        given(self.values@)
    }
}

/// Reads arguments: flags with their values, or nothing where help is asked for. What each of them
/// reads as a floating-point number is said from outside.
pub fn read_flags(
    args: &Vec<String>,
    floats: &Vec<FloatReading>,
    flags: &Vec<Flag>,
    stray: Stray,
) -> (r: Result<Option<Given>, InferError>)
    requires
        floats@.len() == args@.len(),
    ensures
        match r {
            Ok(None) => flags_from(strings(args@), floats@, flags@, stray, 0, Seq::empty()) == Ok::<
                Option<Seq<(FlagId, ValueView)>>,
                ErrorView,
            >(None),
            Ok(Some(g)) => flags_from(strings(args@), floats@, flags@, stray, 0, Seq::empty()) == Ok::<
                Option<Seq<(FlagId, ValueView)>>,
                ErrorView,
            >(Some(g@)),
            Err(e) => flags_from(strings(args@), floats@, flags@, stray, 0, Seq::empty()) == Err::<
                Option<Seq<(FlagId, ValueView)>>,
                ErrorView,
            >(e@),
        },
{
    let ghost texts = strings(args@);
    let mut values: Vec<(FlagId, FlagValue)> = Vec::new();
    let size: usize = args.len();
    let mut i: usize = 0;
    assert(given(values@) =~= Seq::empty());
    while i < size
        invariant
            i <= size,
            size == args@.len(),
            floats@.len() == args@.len(),
            texts == strings(args@),
            flags_from(texts, floats@, flags@, stray, 0, Seq::empty()) == flags_from(
                texts,
                floats@,
                flags@,
                stray,
                i as int,
                given(values@),
            ),
        decreases size - i,
    {
        let name = args[i].as_str();
        assert(texts[i as int] == name@);
        let ghost before = given(values@);
        let flag: Flag = match find_flag(flags, name) {
            None => {
                match stray {
                    Stray::Named(text) => {
                        if str_eq(name, "--help") || str_eq(name, "-h") {
                            return Ok(None);
                        }
                        return Err(InferError::Message(String::from_str(text).concat(name)));
                    },
                    Stray::Fixed(text) => {
                        return Err(InferError::text(text));
                    },
                }
            },
            Some(f) => f,
        };
        let switch: bool = match flag.kind {
            FlagKind::Switch => true,
            _ => false,
        };
        if switch {
            values.push((flag.id, FlagValue::On));
            assert(given(values@) =~= before.push((flag.id, ValueView::On)));
            i = i + 1;
        } else if size - i < 2 {
            match flag.missing {
                Some(text) => {
                    return Err(InferError::text(text));
                },
                None => {
                    values.push((flag.id, FlagValue::Absent));
                    assert(given(values@) =~= before.push((flag.id, ValueView::Absent)));
                    return Ok(Some(Given { values }));
                },
            }
        } else {
            assert(texts[i + 1] == args@[i + 1]@);
            match read_value(flag, args[i + 1].as_str(), &floats[i + 1]) {
                Err(e) => {
                    return Err(e);
                },
                Ok(v) => {
                    let ghost seen = v@;
                    values.push((flag.id, v));
                    assert(given(values@) =~= before.push((flag.id, seen)));
                },
            }
            i = i + 2;
        }
    }
    Ok(Some(Given { values }))
}

// ---------------------------------------------------------------------
// What was said last
// ---------------------------------------------------------------------

/// What the last of the first `n` flags about a thing was given.
pub open spec fn last_of(found: Seq<(FlagId, ValueView)>, id: FlagId, n: int) -> Option<ValueView>
    decreases n,
{
    if n <= 0 {
        None
    } else if found[n - 1].0 == id {
        Some(found[n - 1].1)
    } else {
        last_of(found, id, n - 1)
    }
}

/// The text that was said last.
pub open spec fn text_given(found: Seq<(FlagId, ValueView)>, id: FlagId) -> Option<Seq<char>> {
    match last_of(found, id, found.len() as int) {
        Some(ValueView::Text(t)) => Some(t),
        _ => None,
    }
}

/// The number that was said last.
pub open spec fn number_given(found: Seq<(FlagId, ValueView)>, id: FlagId) -> Option<u64> {
    match last_of(found, id, found.len() as int) {
        Some(ValueView::Unsigned(n)) => Some(n),
        _ => None,
    }
}

/// The signed number that was said last.
pub open spec fn signed_given(found: Seq<(FlagId, ValueView)>, id: FlagId) -> Option<i32> {
    match last_of(found, id, found.len() as int) {
        Some(ValueView::Signed(n)) => Some(n),
        _ => None,
    }
}

/// The bits of the floating-point number that was said last.
pub open spec fn float_given(found: Seq<(FlagId, ValueView)>, id: FlagId) -> Option<u32> {
    match last_of(found, id, found.len() as int) {
        Some(ValueView::Float(b)) => Some(b),
        _ => None,
    }
}

/// The backend that was said last.
pub open spec fn backend_given(found: Seq<(FlagId, ValueView)>, id: FlagId) -> Option<
    EngineBackend,
> {
    match last_of(found, id, found.len() as int) {
        Some(ValueView::Backend(b)) => Some(b),
        _ => None,
    }
}

/// Whether a switch was set.
pub open spec fn switch_given(found: Seq<(FlagId, ValueView)>, id: FlagId) -> bool {
    last_of(found, id, found.len() as int) is Some
}

impl Given {
    fn last(&self, id: FlagId) -> (r: Option<&FlagValue>)
        ensures
            match r {
                Some(v) => last_of(self@, id, self@.len() as int) == Some(v@),
                None => last_of(self@, id, self@.len() as int) is None,
            },
    {
        let mut n: usize = self.values.len();
        while n > 0
            invariant
                n <= self.values@.len(),
                self@.len() == self.values@.len(),
                last_of(self@, id, self@.len() as int) == last_of(self@, id, n as int),
            decreases n,
        {
            if self.values[n - 1].0 == id {
                return Some(&self.values[n - 1].1);
            }
            n = n - 1;
        }
        None
    }

    /// The text that was said last.
    pub fn text(&self, id: FlagId) -> (r: Option<String>)
        ensures
            match r {
                Some(t) => text_given(self@, id) == Some(t@),
                None => text_given(self@, id) is None,
            },
    {
        match self.last(id) {
            Some(FlagValue::Text(t)) => Some(t.clone()),
            _ => None,
        }
    }

    /// The number that was said last.
    pub fn number(&self, id: FlagId) -> (r: Option<u64>)
        ensures
            r == number_given(self@, id),
    {
        match self.last(id) {
            Some(FlagValue::Unsigned(n)) => Some(*n),
            _ => None,
        }
    }

    /// The signed number that was said last.
    pub fn signed(&self, id: FlagId) -> (r: Option<i32>)
        ensures
            r == signed_given(self@, id),
    {
        match self.last(id) {
            Some(FlagValue::Signed(n)) => Some(*n),
            _ => None,
        }
    }

    /// The bits of the floating-point number that was said last.
    pub fn float(&self, id: FlagId) -> (r: Option<u32>)
        ensures
            r == float_given(self@, id),
    {
        match self.last(id) {
            Some(FlagValue::Float(b)) => Some(*b),
            _ => None,
        }
    }

    /// The backend that was said last.
    pub fn backend(&self, id: FlagId) -> (r: Option<EngineBackend>)
        ensures
            r == backend_given(self@, id),
    {
        match self.last(id) {
            Some(FlagValue::Backend(b)) => Some(*b),
            _ => None,
        }
    }

    /// Whether a switch was set.
    pub fn switch(&self, id: FlagId) -> (r: bool)
        ensures
            r == switch_given(self@, id),
    {
        self.last(id).is_some()
    }
}

/// Of two flags about one thing the later one counts.
pub proof fn later_flag_counts(found: Seq<(FlagId, ValueView)>, id: FlagId, value: ValueView)
    ensures
        last_of(found.push((id, value)), id, found.len() as int + 1) == Some(value),
        forall|other: FlagId|
            other != id ==> #[trigger] last_of(
                found.push((id, value)),
                other,
                found.len() as int + 1,
            ) == last_of(found, other, found.len() as int),
{
    let more = found.push((id, value));
    assert forall|other: FlagId| other != id implies #[trigger] last_of(
        more,
        other,
        found.len() as int + 1,
    ) == last_of(found, other, found.len() as int) by {
        lemma_same_last(found, more, other, found.len() as int);
    }
}

proof fn lemma_same_last(
    a: Seq<(FlagId, ValueView)>,
    b: Seq<(FlagId, ValueView)>,
    id: FlagId,
    n: int,
)
    requires
        n <= a.len(),
        n <= b.len(),
        forall|i: int| 0 <= i < n ==> a[i] == b[i],
    ensures
        last_of(a, id, n) == last_of(b, id, n),
    decreases n,
{
    if n > 0 {
        lemma_same_last(a, b, id, n - 1);
    }
}

} // verus!
