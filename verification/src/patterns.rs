//! The regular expressions of a tokenizer file: which of them can be compiled, and run on any text,
//! within bounds.
use crate::json::{Json, JsonView};
use crate::text::{contains, contains_text, str_eq, to_chars};
use vstd::prelude::*;
use vstd::string::*;

verus! {

/// The most that the length of a pattern times its counts can be for it to be compiled: sizes are
/// computed from them in machine words.
pub const LARGEST_COMPILED: u64 = 0xffff_ffff;

/// The most that the length of a pattern times its counts can be for it to be run: a repetition of
/// what takes up no text goes through as many rounds as it is told.
pub const LARGEST_RUN: u64 = 0xf_ffff;

// ---------------------------------------------------------------------
// Counts
// ---------------------------------------------------------------------

/// Whether a character is a decimal digit.
pub open spec fn is_digit(c: char) -> bool {
    48 <= c as u32 <= 57
}

/// What the numbers of a pattern come to: the product of those that are complete, and the one that
/// is being read.
pub ghost struct Counted {
    pub done: nat,
    pub run: nat,
}

impl Counted {
    /// The product of all of the numbers, where zero counts as one.
    pub open spec fn product(self) -> nat {
        if self.run == 0 {
            self.done
        } else {
            self.done * self.run
        }
    }
}

/// The numbers in the first `n` characters of a pattern.
pub open spec fn counted(p: Seq<char>, n: nat) -> Counted
    decreases n,
{
    if n == 0 || n > p.len() {
        Counted { done: 1, run: 0 }
    } else {
        let c = counted(p, (n - 1) as nat);
        if is_digit(p[n - 1]) {
            Counted { run: (c.run * 10 + (p[n - 1] as u32 - 48)) as nat, ..c }
        } else {
            Counted { done: c.product(), run: 0 }
        }
    }
}

/// Whether the length of a pattern times the product of the numbers in it, each taken as at least
/// one, is within a limit.
pub open spec fn counts_are_small(p: Seq<char>, limit: nat) -> bool {
    p.len() * counted(p, p.len()).product() <= limit
}

proof fn lemma_counted_grows(p: Seq<char>, a: nat, b: nat)
    requires
        a <= b <= p.len(),
    ensures
        1 <= counted(p, a).done <= counted(p, a).product() <= counted(p, b).product(),
        counted(p, a).run <= counted(p, a).product(),
    decreases b,
{
    if a < b {
        lemma_counted_grows(p, a, (b - 1) as nat);
        lemma_counted_grows(p, (b - 1) as nat, (b - 1) as nat);
        let c = counted(p, (b - 1) as nat);
        let d = counted(p, b);
        if is_digit(p[b - 1]) && d.run > 0 {
            let done = c.done;
            let run = c.run;
            let next = d.run;
            assert(done * run <= done * next && done <= done * next) by (nonlinear_arith)
                requires
                    run <= next,
                    1 <= next,
            ;
        }
    } else if a > 0 {
        lemma_counted_grows(p, (a - 1) as nat, (a - 1) as nat);
        let d = counted(p, a);
        let done = d.done;
        let run = d.run;
        assert(run > 0 && done >= 1 ==> done <= done * run && run <= done * run)
            by (nonlinear_arith);
    }
}

fn check_counts(p: &str, limit: u64) -> (r: bool)
    requires
        limit <= 0xffff_ffff,
    ensures
        r == counts_are_small(p@, limit as nat),
{
    let chars = to_chars(p);
    let size: usize = chars.len();
    let ghost whole = p@;
    if size == 0 {
        return true;
    }
    let mut done: u64 = 1;
    let mut run: u64 = 0;
    let mut product: u64 = 1;
    let mut i: usize = 0;
    while i < size
        invariant
            i <= size,
            size == chars@.len(),
            chars@ == whole,
            whole == p@,
            size > 0,
            limit <= 0xffff_ffff,
            counted(whole, i as nat) == (Counted { done: done as nat, run: run as nat }),
            product == counted(whole, i as nat).product(),
            product <= limit || i == 0,
            done <= product,
            run <= product,
            1 <= product,
            product <= 0xffff_ffff,
        decreases size - i,
    {
        let c: char = chars[i];
        let ghost next = counted(whole, (i + 1) as nat);
        proof {
            lemma_counted_grows(whole, (i + 1) as nat, (i + 1) as nat);
            lemma_counted_grows(whole, (i + 1) as nat, whole.len());
        }
        let code: u32 = c as u32;
        if 48 <= code && code <= 57 {
            run = run * 10 + (code - 48) as u64;
        } else {
            done = product;
            run = 0;
        }
        assert(next == (Counted { done: done as nat, run: run as nat }));
        if run > limit {
            proof {
                exceeds(whole.len(), counted(whole, whole.len()).product(), limit as nat);
            }
            return false;
        }
        product = if run == 0 {
            done
        } else {
            assert(done * run <= 0xffff_ffff * 0xffff_ffff) by (nonlinear_arith)
                requires
                    done <= 0xffff_ffff,
                    run <= 0xffff_ffff,
            ;
            done * run
        };
        if product > limit {
            proof {
                exceeds(whole.len(), counted(whole, whole.len()).product(), limit as nat);
            }
            return false;
        }
        i = i + 1;
    }
    if size as u64 > limit {
        proof {
            let w = product as nat;
            assert(size * w >= size) by (nonlinear_arith)
                requires
                    w >= 1,
            ;
        }
        return false;
    }
    assert(size * product <= 0xffff_ffff * 0xffff_ffff) by (nonlinear_arith)
        requires
            size <= 0xffff_ffff,
            product <= 0xffff_ffff,
    ;
    size as u64 * product <= limit
}

proof fn exceeds(size: nat, product: nat, limit: nat)
    requires
        size >= 1,
        product > limit,
    ensures
        size * product > limit,
{
    assert(size * product >= product) by (nonlinear_arith)
        requires
            size >= 1,
    ;
}

// ---------------------------------------------------------------------
// Patterns that can be compiled
// ---------------------------------------------------------------------

/// Whether a pattern can be compiled: its counts are small, and it names no group. A group can be
/// named by any number, and a set of bits is kept up to it.
pub open spec fn can_be_compiled(p: Seq<char>) -> bool {
    counts_are_small(p, LARGEST_COMPILED as nat) && !contains_text(p, "\\k"@)
}

/// Whether a text that stands under a name is no pattern, or one that can be compiled.
pub open spec fn compiles_under(name: Seq<char>, j: JsonView) -> bool {
    name == "Regex"@ ==> (j matches JsonView::Text(p) ==> can_be_compiled(p))
}

/// Whether each pattern in a part of a file, at any depth, can be compiled.
pub open spec fn patterns_compile(j: JsonView) -> bool
    decreases j,
{
    match j {
        JsonView::List(v) => forall|i: int| 0 <= i < v.len() ==> patterns_compile(#[trigger] v[i]),
        JsonView::Table(v) => forall|i: int|
            0 <= i < v.len() ==> compiles_under((#[trigger] v[i]).0, v[i].1) && patterns_compile(
                v[i].1,
            ),
        _ => true,
    }
}

fn check_under(name: &str, j: &Json) -> (r: bool)
    ensures
        r == compiles_under(name@, j.shown()),
{
    match j {
        Json::Text(p) => !str_eq(name, "Regex") || (check_counts(p.as_str(), LARGEST_COMPILED)
            && !contains(p.as_str(), "\\k")),
        _ => true,
    }
}

impl Json {
    /// Tests whether each pattern in a part of a file can be compiled.
    pub fn has_sound_patterns(&self) -> (r: bool)
        ensures
            r == patterns_compile(self.shown()),
        decreases self,
    {
        let mut i: usize = 0;
        match self {
            Json::List(v) => {
                let ghost views = self.shown()->List_0;
                while i < v.len()
                    invariant
                        i <= v@.len(),
                        *self == Json::List(*v),
                        views == self.shown()->List_0,
                        forall|k: int| 0 <= k < i ==> patterns_compile(#[trigger] views[k]),
                    decreases v@.len() - i,
                {
                    assert(views[i as int] == v@[i as int].shown());
                    if !v[i].has_sound_patterns() {
                        return false;
                    }
                    i = i + 1;
                }
                true
            },
            Json::Table(v) => {
                let ghost views = self.shown()->Table_0;
                while i < v.len()
                    invariant
                        i <= v@.len(),
                        *self == Json::Table(*v),
                        views == self.shown()->Table_0,
                        forall|k: int|
                            0 <= k < i ==> compiles_under((#[trigger] views[k]).0, views[k].1)
                                && patterns_compile(views[k].1),
                    decreases v@.len() - i,
                {
                    assert(views[i as int] == (v@[i as int].0@, v@[i as int].1.shown()));
                    if !check_under(v[i].0.as_str(), &v[i].1) || !v[i].1.has_sound_patterns() {
                        return false;
                    }
                    i = i + 1;
                }
                true
            },
            _ => true,
        }
    }
}

// ---------------------------------------------------------------------
// Patterns that can be run
// ---------------------------------------------------------------------

/// Whether a backslash before a character does not refer to a group and does not move the start of
/// what is found.
pub open spec fn is_plain_escape(c: char) -> bool {
    !is_digit(c) && c != 'k' && c != 'K'
}

/// Whether what stands behind an opening bracket at a place is a group that is captured, grouped
/// alone, looked ahead at, looked behind at, or read without regard to case.
pub open spec fn is_plain_group(p: Seq<char>, i: int) -> bool {
    ||| i + 1 >= p.len()
    ||| p[i + 1] != '?'
    ||| i + 2 < p.len() && (p[i + 2] == ':' || p[i + 2] == '=' || p[i + 2] == '!')
    ||| i + 3 < p.len() && p[i + 2] == 'i' && (p[i + 3] == ':' || p[i + 3] == ')')
    ||| i + 3 < p.len() && p[i + 2] == '<' && (p[i + 3] == '=' || p[i + 3] == '!')
}

/// Whether nothing out of the ordinary begins at a place of a pattern.
pub open spec fn is_plain_at(p: Seq<char>, i: int) -> bool {
    &&& p[i] == '\\' && i + 1 < p.len() ==> is_plain_escape(p[i + 1])
    &&& p[i] == '(' ==> is_plain_group(p, i)
}

/// Whether a pattern can be run on any text: its counts are small, it refers to no group, and it
/// holds none but plain groups.
pub open spec fn can_be_run(p: Seq<char>) -> bool {
    &&& counts_are_small(p, LARGEST_RUN as nat)
    &&& forall|i: int| 0 <= i < p.len() ==> #[trigger] is_plain_at(p, i)
}

fn check_plain_at(p: &Vec<char>, i: usize) -> (r: bool)
    requires
        i < p@.len(),
    ensures
        r == is_plain_at(p@, i as int),
{
    let n: usize = p.len();
    if p[i] == '\\' {
        if i + 1 >= n {
            return true;
        }
        let c: char = p[i + 1];
        let code: u32 = c as u32;
        return !(48 <= code && code <= 57) && c != 'k' && c != 'K';
    }
    if p[i] != '(' || n - i <= 1 || p[i + 1] != '?' {
        return true;
    }
    if n - i <= 2 {
        return false;
    }
    let a: char = p[i + 2];
    if a == ':' || a == '=' || a == '!' {
        return true;
    }
    if n - i <= 3 {
        return false;
    }
    let b: char = p[i + 3];
    (a == 'i' && (b == ':' || b == ')')) || (a == '<' && (b == '=' || b == '!'))
}

/// Tests whether a pattern can be run on any text.
pub fn check_pattern(p: &str) -> (r: bool)
    ensures
        r == can_be_run(p@),
{
    if !check_counts(p, LARGEST_RUN) {
        return false;
    }
    let chars = to_chars(p);
    let mut i: usize = 0;
    while i < chars.len()
        invariant
            i <= chars@.len(),
            chars@ == p@,
            forall|k: int| 0 <= k < i ==> #[trigger] is_plain_at(p@, k),
        decreases chars@.len() - i,
    {
        if !check_plain_at(&chars, i) {
            return false;
        }
        i = i + 1;
    }
    true
}

} // verus!
