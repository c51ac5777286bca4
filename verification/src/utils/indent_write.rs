//! Indentation of text written line by line: the state of an indenting writer and what
//! it passes on to the writer it wraps.
use vstd::prelude::*;

use crate::chars::{chars_of, push_char};

verus! {

/// The indentation written for `level` levels, two spaces each.
pub open spec fn indentation(level: nat) -> Seq<char>
    decreases level,
{
    if level == 0 {
        Seq::empty()
    } else {
        indentation((level - 1) as nat) + "  "@
    }
}

/// The text passed on for `s` at depth `level`: the indentation before the first
/// character of each line, where `at_line_start` tells whether the first character of `s`
/// starts a line.
pub open spec fn indented_text(level: nat, at_line_start: bool, s: Seq<char>) -> Seq<char>
    decreases s.len(),
{
    if s.len() == 0 {
        Seq::empty()
    } else {
        (if at_line_start {
            indentation(level)
        } else {
            Seq::empty()
        }) + seq![s[0]] + indented_text(level, s[0] == '\n', s.drop_first())
    }
}

/// Whether the character after `s` starts a line.
pub open spec fn line_start_after(at_line_start: bool, s: Seq<char>) -> bool {
    if s.len() == 0 {
        at_line_start
    } else {
        s.last() == '\n'
    }
}

/// Text written in two pieces is passed on as the same text written at once: the second
/// piece starts a line exactly when the first piece ends one.
pub proof fn lemma_indented_text_split(level: nat, at_line_start: bool, a: Seq<char>, b: Seq<char>)
    ensures
        indented_text(level, at_line_start, a + b) == indented_text(level, at_line_start, a)
            + indented_text(level, line_start_after(at_line_start, a), b),
    decreases a.len(),
{
    if a.len() == 0 {
        assert(a + b =~= b);
    } else {
        let rest = a.drop_first();
        lemma_indented_text_split(level, a[0] == '\n', rest, b);
        assert((a + b).drop_first() =~= rest + b);
        assert((a + b)[0] == a[0]);
        if rest.len() > 0 {
            assert(rest.last() == a.last());
        }
    }
}

/// Indentation adds only spaces, two per level: taking them out gives back the text, and
/// at depth 0 the text is passed on unchanged.
pub proof fn lemma_indentation_is_spaces(level: nat)
    ensures
        indentation(level).len() == 2 * level,
        forall|i: int| 0 <= i < indentation(level).len() ==> #[trigger] indentation(level)[i] == ' ',
    decreases level,
{
    reveal_strlit("  ");
    if level > 0 {
        lemma_indentation_is_spaces((level - 1) as nat);
        let prev = indentation((level - 1) as nat);
        assert forall|i: int| 0 <= i < indentation(level).len() implies #[trigger] indentation(
            level,
        )[i] == ' ' by {
            if i < prev.len() {
                assert(indentation(level)[i] == prev[i]);
            } else {
                assert(indentation(level)[i] == "  "@[i - prev.len()]);
            }
        }
    }
}

/// At depth 0 nothing is added: the text is passed on unchanged.
pub proof fn lemma_indented_text_level_zero(at_line_start: bool, s: Seq<char>)
    ensures
        indented_text(0, at_line_start, s) == s,
    decreases s.len(),
{
    if s.len() > 0 {
        lemma_indented_text_level_zero(s[0] == '\n', s.drop_first());
        assert(indentation(0) =~= Seq::<char>::empty());
        assert(seq![s[0]] + s.drop_first() =~= s);
    }
}

/// The state of an indenting writer.
pub struct Indented {
    level: usize,
    at_line_start: bool,
}

/// The model of an indenting writer's state.
pub struct IndentState {
    pub level: nat,
    pub at_line_start: bool,
}

impl View for Indented {
    type V = IndentState;

    closed spec fn view(&self) -> IndentState {
        IndentState { level: self.level as nat, at_line_start: self.at_line_start }
    }
}

fn write_indentation(out: &mut String, level: usize)
    ensures
        final(out)@ == old(out)@ + indentation(level as nat),
{
    let mut i: usize = 0;
    let ghost start = out@;
    while i < level
        invariant
            i <= level,
            out@ == start + indentation(i as nat),
        decreases level - i,
    {
        out.append("  ");
        i = i + 1;
        assert(out@ =~= start + indentation(i as nat));
    }
}

impl Indented {
    /// At depth 0, at the start of a line.
    pub fn new() -> (r: Self)
        ensures
            r@ == (IndentState { level: 0, at_line_start: true }),
    {
        Self { level: 0, at_line_start: true }
    }

    pub fn level(&self) -> (r: usize)
        ensures
            r == self@.level,
    {
        self.level
    }

    /// Sets the depth, giving back the depth before.
    pub fn set_level(&mut self, level: usize) -> (prev: usize)
        ensures
            prev == old(self)@.level,
            final(self)@ == (IndentState { level: level as nat, ..old(self)@ }),
    {
        let prev = self.level;
        self.level = level;
        prev
    }

    /// Runs `f` one level deeper, then comes back to this depth, keeping whether the next
    /// character starts a line as `f` left it; gives what `f` gives.
    pub fn with_indent<F, R>(&mut self, f: F) -> (r: R)
        where
            F: FnOnce(&mut Self) -> R,
        requires
            old(self)@.level < usize::MAX,
            forall|s: &mut Self| #[trigger] call_requires(f, (s,)),
        ensures
            exists|s: &mut Self|
                #[trigger] call_ensures(f, (s,), r) && (*s)@ == (IndentState {
                    level: old(self)@.level + 1,
                    at_line_start: old(self)@.at_line_start,
                }) && final(self)@ == (IndentState {
                    level: old(self)@.level,
                    at_line_start: (*final(s))@.at_line_start,
                }),
    {
        let prev = self.set_level(self.level + 1);
        let res = f(self);
        self.set_level(prev);
        res
    }

    /// Runs `f` at depth `level`, then comes back to this depth, keeping whether the next
    /// character starts a line as `f` left it; gives what `f` gives.
    pub fn with_specific_indent<F, R>(&mut self, level: usize, f: F) -> (r: R)
        where
            F: FnOnce(&mut Self) -> R,
        requires
            forall|s: &mut Self| #[trigger] call_requires(f, (s,)),
        ensures
            exists|s: &mut Self|
                #[trigger] call_ensures(f, (s,), r) && (*s)@ == (IndentState {
                    level: level as nat,
                    at_line_start: old(self)@.at_line_start,
                }) && final(self)@ == (IndentState {
                    level: old(self)@.level,
                    at_line_start: (*final(s))@.at_line_start,
                }),
    {
        let prev = self.set_level(level);
        let res = f(self);
        self.set_level(prev);
        res
    }

    /// The text to pass on for `s`: `s` with the indentation of the current depth before
    /// the first character of each line. Records whether the next character starts a line.
    pub fn write_str(&mut self, s: &str) -> (r: String)
        ensures
            r@ == indented_text(old(self)@.level, old(self)@.at_line_start, s@),
            final(self)@ == (IndentState {
                at_line_start: line_start_after(old(self)@.at_line_start, s@),
                ..old(self)@
            }),
    {
        let cs = chars_of(s);
        let ghost level = self.level as nat;
        let ghost start = self.at_line_start;
        let mut out = String::new();
        let mut i: usize = 0;
        assert(s@.skip(0) =~= s@);
        assert(out@ + indented_text(level, start, s@) =~= indented_text(level, start, s@));
        while i < cs.len()
            invariant
                cs@ == s@,
                i <= cs.len(),
                self.level == level,
                self.at_line_start == line_start_after(start, s@.take(i as int)),
                out@ + indented_text(level, self.at_line_start, s@.skip(i as int))
                    == indented_text(level, start, s@),
            decreases cs.len() - i,
        {
            let ghost before = out@;
            let ghost rest = s@.skip(i as int);
            let ghost a = self.at_line_start;
            let c = cs[i];
            if self.at_line_start {
                write_indentation(&mut out, self.level);
            }
            push_char(&mut out, c);
            self.at_line_start = c == '\n';
            i = i + 1;
            proof {
                assert(rest.drop_first() =~= s@.skip(i as int));
                assert(s@.take(i as int).last() == c);
                assert(rest[0] == c);
                assert(out@ + indented_text(level, self.at_line_start, s@.skip(i as int)) =~= before
                    + indented_text(level, a, rest));
            }
        }
        assert(s@.skip(i as int) =~= Seq::<char>::empty());
        out
    }
}

} // verus!
