//! Rename engine: the pure string-casing transformer applied to declared
//! identifiers when computing externally visible names.

use vstd::prelude::*;
use crate::text::{
    chars_to_string, is_digit_char, is_ident_char, is_identifier, is_lower_char, is_upper_char,
    lower_char, str_to_chars, to_lower, to_upper, upper_char,
};

verus! {

/// One of the six casing rules a declaration may select.
#[derive(Debug, Copy, Clone, PartialEq, Eq, Structural)]
pub enum RenameRule {
    Lower,
    Upper,
    Pascal,
    Camel,
    Snake,
    ScreamingSnake,
}

/// The kind of declared item a rename applies to; each kind has a fixed
/// default rule.
#[derive(Debug, Copy, Clone, PartialEq, Eq, Structural)]
pub enum RenameTarget {
    Type,
    EnumItem,
    Field,
    Argument,
}

/// A word boundary inside an identifier: an uppercase letter directly after a
/// lowercase letter or a digit.
pub open spec fn word_boundary(s: Seq<char>, i: int) -> bool {
    0 < i < s.len() && is_upper_char(s[i]) && (is_lower_char(s[i - 1]) || is_digit_char(s[i - 1]))
}

/// Underscore-separated casing of the suffix of `s` starting at `i`:
/// underscores are kept, a word boundary inserts an underscore, and every
/// letter is lowercased (`scream == false`) or uppercased (`scream == true`).
pub open spec fn snakeish_rec(s: Seq<char>, i: int, scream: bool) -> Seq<char>
    decreases s.len() - i,
{
    if i < 0 || i >= s.len() {
        Seq::<char>::empty()
    } else if s[i] == '_' {
        seq!['_'] + snakeish_rec(s, i + 1, scream)
    } else {
        let c = if scream {
            upper_char(s[i])
        } else {
            lower_char(s[i])
        };
        let emitted = if word_boundary(s, i) {
            seq!['_', c]
        } else {
            seq![c]
        };
        emitted + snakeish_rec(s, i + 1, scream)
    }
}

/// Concatenated casing of the suffix of `s` starting at `i`: underscores are
/// dropped, the first character of each word is uppercased (except the very
/// first word unless `pascal`), and all other characters are lowercased.
/// `start` records that the next character begins a word; `first_done`
/// records that some word has already begun.
pub open spec fn camelish_rec(
    s: Seq<char>,
    i: int,
    start: bool,
    first_done: bool,
    pascal: bool,
) -> Seq<char>
    decreases s.len() - i,
{
    if i < 0 || i >= s.len() {
        Seq::<char>::empty()
    } else if s[i] == '_' {
        camelish_rec(s, i + 1, true, first_done, pascal)
    } else {
        let ws = start || word_boundary(s, i);
        let c = if ws && (pascal || first_done) {
            upper_char(s[i])
        } else {
            lower_char(s[i])
        };
        seq![c] + camelish_rec(s, i + 1, false, first_done || ws, pascal)
    }
}

/// What `rename` returns: the identifier transformed by the rule.
pub open spec fn rename_spec(rule: RenameRule, s: Seq<char>) -> Seq<char> {
    match rule {
        RenameRule::Lower => s.map_values(|c: char| lower_char(c)),
        RenameRule::Upper => s.map_values(|c: char| upper_char(c)),
        RenameRule::Pascal => camelish_rec(s, 0, true, false, true),
        RenameRule::Camel => camelish_rec(s, 0, true, false, false),
        RenameRule::Snake => snakeish_rec(s, 0, false),
        RenameRule::ScreamingSnake => snakeish_rec(s, 0, true),
    }
}

/// The default rule of each rename target.
pub open spec fn default_rule(t: RenameTarget) -> RenameRule {
    match t {
        RenameTarget::Type => RenameRule::Pascal,
        RenameTarget::EnumItem => RenameRule::ScreamingSnake,
        RenameTarget::Field => RenameRule::Camel,
        RenameTarget::Argument => RenameRule::Camel,
    }
}

fn boundary_at(cs: &Vec<char>, i: usize) -> (r: bool)
    requires
        i < cs@.len(),
    ensures
        r == word_boundary(cs@, i as int),
{
    if i == 0 {
        false
    } else {
        let cu = cs[i] as u32;
        let pu = cs[i - 1] as u32;
        (65 <= cu && cu <= 90) && ((97 <= pu && pu <= 122) || (48 <= pu && pu <= 57))
    }
}

fn map_case(cs: &Vec<char>, up: bool) -> (r: Vec<char>)
    ensures
        r@ == if up {
            cs@.map_values(|c: char| upper_char(c))
        } else {
            cs@.map_values(|c: char| lower_char(c))
        },
{
    let ghost goal = if up {
        cs@.map_values(|c: char| upper_char(c))
    } else {
        cs@.map_values(|c: char| lower_char(c))
    };
    let mut out: Vec<char> = Vec::new();
    let mut i: usize = 0;
    while i < cs.len()
        invariant
            i <= cs@.len(),
            goal == if up {
                cs@.map_values(|c: char| upper_char(c))
            } else {
                cs@.map_values(|c: char| lower_char(c))
            },
            out@ == goal.take(i as int),
        decreases cs@.len() - i,
    {
        let c = if up {
            to_upper(cs[i])
        } else {
            to_lower(cs[i])
        };
        out.push(c);
        i = i + 1;
        proof {
            assert(out@ =~= goal.take(i as int));
        }
    }
    proof {
        assert(goal.take(cs@.len() as int) =~= goal);
    }
    out
}

fn snakeish(cs: &Vec<char>, scream: bool) -> (r: Vec<char>)
    ensures
        r@ == snakeish_rec(cs@, 0, scream),
{
    let ghost full = snakeish_rec(cs@, 0, scream);
    let mut out: Vec<char> = Vec::new();
    proof {
        assert(out@ + full =~= full);
    }
    let mut i: usize = 0;
    while i < cs.len()
        invariant
            i <= cs@.len(),
            full == snakeish_rec(cs@, 0, scream),
            full == out@ + snakeish_rec(cs@, i as int, scream),
        decreases cs@.len() - i,
    {
        let ghost prev_out = out@;
        let c = cs[i];
        if c == '_' {
            out.push('_');
            proof {
                assert(out@ =~= prev_out + seq!['_']);
                assert(prev_out + (seq!['_'] + snakeish_rec(cs@, i + 1, scream)) =~= out@
                    + snakeish_rec(cs@, i + 1, scream));
            }
        } else {
            let b = boundary_at(cs, i);
            if b {
                out.push('_');
            }
            let e = if scream {
                to_upper(c)
            } else {
                to_lower(c)
            };
            out.push(e);
            proof {
                let emitted = if word_boundary(cs@, i as int) {
                    seq!['_', e]
                } else {
                    seq![e]
                };
                assert(out@ =~= prev_out + emitted);
                assert(snakeish_rec(cs@, i as int, scream) == emitted + snakeish_rec(
                    cs@,
                    i + 1,
                    scream,
                ));
                assert(prev_out + (emitted + snakeish_rec(cs@, i + 1, scream)) =~= out@
                    + snakeish_rec(cs@, i + 1, scream));
            }
        }
        i = i + 1;
    }
    proof {
        assert(out@ + snakeish_rec(cs@, cs@.len() as int, scream) =~= out@);
    }
    out
}

fn camelish(cs: &Vec<char>, pascal: bool) -> (r: Vec<char>)
    ensures
        r@ == camelish_rec(cs@, 0, true, false, pascal),
{
    let ghost full = camelish_rec(cs@, 0, true, false, pascal);
    let mut out: Vec<char> = Vec::new();
    proof {
        assert(out@ + full =~= full);
    }
    let mut i: usize = 0;
    let mut start: bool = true;
    let mut first_done: bool = false;
    while i < cs.len()
        invariant
            i <= cs@.len(),
            full == camelish_rec(cs@, 0, true, false, pascal),
            full == out@ + camelish_rec(cs@, i as int, start, first_done, pascal),
        decreases cs@.len() - i,
    {
        let ghost prev_out = out@;
        let ghost old_start = start;
        let ghost old_first = first_done;
        let c = cs[i];
        if c == '_' {
            start = true;
            proof {
                assert(camelish_rec(cs@, i as int, old_start, old_first, pascal)
                    == camelish_rec(cs@, i + 1, true, old_first, pascal));
            }
        } else {
            let ws = start || boundary_at(cs, i);
            let e = if ws && (pascal || first_done) {
                to_upper(c)
            } else {
                to_lower(c)
            };
            out.push(e);
            start = false;
            first_done = first_done || ws;
            proof {
                assert(out@ =~= prev_out + seq![e]);
                assert(camelish_rec(cs@, i as int, old_start, old_first, pascal) == seq![e]
                    + camelish_rec(cs@, i + 1, false, first_done, pascal));
                assert(prev_out + (seq![e] + camelish_rec(cs@, i + 1, false, first_done, pascal))
                    =~= out@ + camelish_rec(cs@, i + 1, false, first_done, pascal));
            }
        }
        i = i + 1;
    }
    proof {
        assert(out@ + camelish_rec(cs@, cs@.len() as int, start, first_done, pascal) =~= out@);
    }
    out
}

impl RenameRule {
    /// Applies the casing rule to an identifier.
    pub fn rename(&self, name: &str) -> (r: String)
        ensures
            r@ == rename_spec(*self, name@),
    {
        let cs = str_to_chars(name);
        let out: Vec<char> = match self {
            RenameRule::Lower => map_case(&cs, false),
            RenameRule::Upper => map_case(&cs, true),
            RenameRule::Pascal => camelish(&cs, true),
            RenameRule::Camel => camelish(&cs, false),
            RenameRule::Snake => snakeish(&cs, false),
            RenameRule::ScreamingSnake => snakeish(&cs, true),
        };
        chars_to_string(&out)
    }
}

impl RenameTarget {
    /// The default rule of this target.
    pub fn rule(&self) -> (r: RenameRule)
        ensures
            r == default_rule(*self),
    {
        match self {
            RenameTarget::Type => RenameRule::Pascal,
            RenameTarget::EnumItem => RenameRule::ScreamingSnake,
            RenameTarget::Field => RenameRule::Camel,
            RenameTarget::Argument => RenameRule::Camel,
        }
    }

    /// Applies the target's default rule to an identifier.
    pub fn rename(&self, name: &str) -> (r: String)
        ensures
            r@ == rename_spec(default_rule(*self), name@),
    {
        self.rule().rename(name)
    }
}

/// A character the underscore-separated lowercase form is made of.
pub open spec fn snake_char(c: char) -> bool {
    is_lower_char(c) || is_digit_char(c) || c == '_'
}

/// A character the underscore-separated uppercase form of a digit-free
/// identifier is made of.
pub open spec fn scream_char(c: char) -> bool {
    is_upper_char(c) || c == '_'
}

proof fn lemma_case_chars(c: char)
    ensures
        lower_char(lower_char(c)) == lower_char(c),
        upper_char(upper_char(c)) == upper_char(c),
        is_ident_char(c) && c != '_' ==> snake_char(lower_char(c)),
        (is_upper_char(c) || is_lower_char(c)) ==> is_upper_char(upper_char(c)),
{
}

/// Lowercasing and uppercasing are idempotent, on every string.
pub proof fn lemma_lower_upper_idempotent(s: Seq<char>)
    ensures
        rename_spec(RenameRule::Lower, rename_spec(RenameRule::Lower, s)) == rename_spec(
            RenameRule::Lower,
            s,
        ),
        rename_spec(RenameRule::Upper, rename_spec(RenameRule::Upper, s)) == rename_spec(
            RenameRule::Upper,
            s,
        ),
{
    let l1 = s.map_values(|c: char| lower_char(c));
    let l2 = l1.map_values(|c: char| lower_char(c));
    assert forall|k: int| 0 <= k < l2.len() implies l2[k] == l1[k] by {
        lemma_case_chars(s[k]);
    }
    assert(l2 =~= l1);
    let u1 = s.map_values(|c: char| upper_char(c));
    let u2 = u1.map_values(|c: char| upper_char(c));
    assert forall|k: int| 0 <= k < u2.len() implies u2[k] == u1[k] by {
        lemma_case_chars(s[k]);
    }
    assert(u2 =~= u1);
}

proof fn lemma_snake_chars(s: Seq<char>, i: int)
    requires
        is_identifier(s),
        0 <= i,
    ensures
        forall|k: int|
            0 <= k < snakeish_rec(s, i, false).len() ==> snake_char(
                #[trigger] snakeish_rec(s, i, false)[k],
            ),
    decreases s.len() - i,
{
    if i < s.len() {
        lemma_snake_chars(s, i + 1);
        lemma_case_chars(s[i]);
        assert(is_ident_char(s[i]));
        let rest = snakeish_rec(s, i + 1, false);
        let cur = snakeish_rec(s, i, false);
        if s[i] == '_' {
            assert forall|k: int| 0 <= k < cur.len() implies snake_char(cur[k]) by {
                if k == 0 {
                    assert(cur[k] == '_');
                } else {
                    assert(cur[k] == rest[k - 1]);
                }
            }
        } else {
            let c = lower_char(s[i]);
            if word_boundary(s, i) {
                assert forall|k: int| 0 <= k < cur.len() implies snake_char(cur[k]) by {
                    if k == 0 {
                        assert(cur[k] == '_');
                    } else if k == 1 {
                        assert(cur[k] == c);
                    } else {
                        assert(cur[k] == rest[k - 2]);
                    }
                }
            } else {
                assert forall|k: int| 0 <= k < cur.len() implies snake_char(cur[k]) by {
                    if k == 0 {
                        assert(cur[k] == c);
                    } else {
                        assert(cur[k] == rest[k - 1]);
                    }
                }
            }
        }
    }
}

proof fn lemma_snake_fixed(t: Seq<char>, i: int)
    requires
        0 <= i <= t.len(),
        forall|k: int| 0 <= k < t.len() ==> snake_char(#[trigger] t[k]),
    ensures
        snakeish_rec(t, i, false) == t.skip(i),
    decreases t.len() - i,
{
    if i < t.len() {
        lemma_snake_fixed(t, i + 1);
        assert(snake_char(t[i]));
        assert(!is_upper_char(t[i]));
        assert(lower_char(t[i]) == t[i]);
        assert(!word_boundary(t, i));
        assert(t.skip(i) =~= seq![t[i]] + t.skip(i + 1));
        assert(snakeish_rec(t, i, false) == seq![t[i]] + t.skip(i + 1));
    } else {
        assert(t.skip(i) =~= Seq::<char>::empty());
    }
}

/// The underscore-separated lowercase form is idempotent on identifiers.
pub proof fn lemma_snake_idempotent(s: Seq<char>)
    requires
        is_identifier(s),
    ensures
        rename_spec(RenameRule::Snake, rename_spec(RenameRule::Snake, s)) == rename_spec(
            RenameRule::Snake,
            s,
        ),
{
    let t = snakeish_rec(s, 0, false);
    lemma_snake_chars(s, 0);
    lemma_snake_fixed(t, 0);
    assert(t.skip(0) =~= t);
}

proof fn lemma_scream_chars(s: Seq<char>, i: int)
    requires
        0 <= i,
        forall|k: int|
            0 <= k < s.len() ==> (is_upper_char(#[trigger] s[k]) || is_lower_char(s[k]) || s[k]
                == '_'),
    ensures
        forall|k: int|
            0 <= k < snakeish_rec(s, i, true).len() ==> scream_char(
                #[trigger] snakeish_rec(s, i, true)[k],
            ),
    decreases s.len() - i,
{
    if i < s.len() {
        lemma_scream_chars(s, i + 1);
        lemma_case_chars(s[i]);
        let rest = snakeish_rec(s, i + 1, true);
        let cur = snakeish_rec(s, i, true);
        if s[i] == '_' {
            assert forall|k: int| 0 <= k < cur.len() implies scream_char(cur[k]) by {
                if k == 0 {
                    assert(cur[k] == '_');
                } else {
                    assert(cur[k] == rest[k - 1]);
                }
            }
        } else {
            let c = upper_char(s[i]);
            assert(is_upper_char(c));
            if word_boundary(s, i) {
                assert forall|k: int| 0 <= k < cur.len() implies scream_char(cur[k]) by {
                    if k == 0 {
                        assert(cur[k] == '_');
                    } else if k == 1 {
                        assert(cur[k] == c);
                    } else {
                        assert(cur[k] == rest[k - 2]);
                    }
                }
            } else {
                assert forall|k: int| 0 <= k < cur.len() implies scream_char(cur[k]) by {
                    if k == 0 {
                        assert(cur[k] == c);
                    } else {
                        assert(cur[k] == rest[k - 1]);
                    }
                }
            }
        }
    }
}

proof fn lemma_scream_fixed(t: Seq<char>, i: int)
    requires
        0 <= i <= t.len(),
        forall|k: int| 0 <= k < t.len() ==> scream_char(#[trigger] t[k]),
    ensures
        snakeish_rec(t, i, true) == t.skip(i),
    decreases t.len() - i,
{
    if i < t.len() {
        lemma_scream_fixed(t, i + 1);
        assert(scream_char(t[i]));
        if i > 0 {
            assert(scream_char(t[i - 1]));
        }
        assert(!word_boundary(t, i));
        assert(upper_char(t[i]) == t[i]);
        assert(t.skip(i) =~= seq![t[i]] + t.skip(i + 1));
        assert(snakeish_rec(t, i, true) == seq![t[i]] + t.skip(i + 1));
    } else {
        assert(t.skip(i) =~= Seq::<char>::empty());
    }
}

/// The underscore-separated uppercase form is idempotent on identifiers
/// without digits. (A digit directly before a letter defeats it: the second
/// pass sees a word boundary there that the first pass's output created.)
pub proof fn lemma_scream_idempotent(s: Seq<char>)
    requires
        forall|k: int|
            0 <= k < s.len() ==> (is_upper_char(#[trigger] s[k]) || is_lower_char(s[k]) || s[k]
                == '_'),
    ensures
        rename_spec(RenameRule::ScreamingSnake, rename_spec(RenameRule::ScreamingSnake, s))
            == rename_spec(RenameRule::ScreamingSnake, s),
{
    let t = snakeish_rec(s, 0, true);
    lemma_scream_chars(s, 0);
    lemma_scream_fixed(t, 0);
    assert(t.skip(0) =~= t);
}

/// A string already in concatenated (camel or Pascal) form: no underscore,
/// and every uppercase letter after the first position follows a lowercase
/// letter or a digit.
pub open spec fn camelish_form(t: Seq<char>) -> bool {
    &&& forall|k: int| 0 <= k < t.len() ==> #[trigger] t[k] != '_'
    &&& forall|k: int|
        0 < k < t.len() && is_upper_char(#[trigger] t[k]) ==> (is_lower_char(t[k - 1])
            || is_digit_char(t[k - 1]))
}

proof fn lemma_camelish_fixed(t: Seq<char>, i: int, pascal: bool)
    requires
        camelish_form(t),
        0 <= i <= t.len(),
        t.len() > 0 && pascal ==> !is_lower_char(t[0]),
        t.len() > 0 && !pascal ==> !is_upper_char(t[0]),
    ensures
        camelish_rec(t, i, i == 0, i > 0, pascal) == t.skip(i),
    decreases t.len() - i,
{
    if i < t.len() {
        lemma_camelish_fixed(t, i + 1, pascal);
        assert(t[i] != '_');
        if i == 0 {
            if pascal {
                assert(upper_char(t[0]) == t[0]);
            } else {
                assert(lower_char(t[0]) == t[0]);
            }
        } else {
            if is_upper_char(t[i]) {
                assert(word_boundary(t, i));
                assert(upper_char(t[i]) == t[i]);
            } else {
                assert(!word_boundary(t, i));
                assert(lower_char(t[i]) == t[i]);
            }
        }
        assert(t.skip(i) =~= seq![t[i]] + t.skip(i + 1));
    } else {
        assert(t.skip(i) =~= Seq::<char>::empty());
    }
}

/// The concatenated forms leave a string that is already in their shape
/// unchanged: the camel form one that starts in lowercase, the Pascal form
/// one that does not start in lowercase. (Applied twice they can differ on
/// other identifiers: one-letter words uppercase to adjacent capitals,
/// which the second pass groups into one word.)
pub proof fn lemma_camelish_fixed_point(t: Seq<char>)
    requires
        camelish_form(t),
    ensures
        t.len() > 0 && !is_lower_char(t[0]) ==> rename_spec(RenameRule::Pascal, t) == t,
        t.len() > 0 && !is_upper_char(t[0]) ==> rename_spec(RenameRule::Camel, t) == t,
        t.len() == 0 ==> rename_spec(RenameRule::Pascal, t) == t && rename_spec(
            RenameRule::Camel,
            t,
        ) == t,
{
    if t.len() == 0 || !is_lower_char(t[0]) {
        lemma_camelish_fixed(t, 0, true);
        assert(t.skip(0) =~= t);
    }
    if t.len() == 0 || !is_upper_char(t[0]) {
        lemma_camelish_fixed(t, 0, false);
        assert(t.skip(0) =~= t);
    }
}

/// An optional explicit rule falls back to the target's default rule.
pub trait RenameRuleExt {
    /// The rule that will be applied.
    spec fn effective_rule(&self, target: RenameTarget) -> RenameRule;

    /// Applies the effective rule to an identifier.
    fn rename(&self, name: &str, target: RenameTarget) -> (r: String)
        ensures
            r@ == rename_spec(self.effective_rule(target), name@),
    ;
}

impl RenameRuleExt for Option<RenameRule> {
    open spec fn effective_rule(&self, target: RenameTarget) -> RenameRule {
        match *self {
            Some(rule) => rule,
            None => default_rule(target),
        }
    }

    fn rename(&self, name: &str, target: RenameTarget) -> (r: String)
        ensures
            r@ == rename_spec(self.effective_rule(target), name@),
    {
        match self {
            Some(rule) => rule.rename(name),
            None => target.rule().rename(name),
        }
    }
}

} // verus!

