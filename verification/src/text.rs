//! Verified string building blocks for the renderer: decimal rendering of
//! heading levels, class-list construction, space-joining, and the
//! escape-stripping applied to anchor targets.
use vstd::prelude::*;
use vstd::string::StringExecFns;

verus! {

/// Relies on std's String::push: appends exactly the given character.
#[verifier::external_body]
pub(crate) fn push_char(s: &mut String, c: char)
    ensures
        final(s)@ == old(s)@.push(c),
{
    s.push(c);
}

/// The text with every `'$'` removed and all other characters kept in
/// order.
pub open spec fn spec_strip_dollars(s: Seq<char>) -> Seq<char> {
    s.filter(|c: char| c != '$')
}

/// Relies on std's str::replace: replacing the one-character pattern `"$"`
/// with the empty string removes every `'$'` and keeps all other
/// characters in order.
#[verifier::external_body]
pub fn strip_dollars(s: &str) -> (r: String)
    ensures
        r@ == spec_strip_dollars(s@),
{
    s.replace("$", "")
}

/// The decimal digit character for one digit value.
pub open spec fn digit_char(d: nat) -> char {
    if d == 0 {
        '0'
    } else if d == 1 {
        '1'
    } else if d == 2 {
        '2'
    } else if d == 3 {
        '3'
    } else if d == 4 {
        '4'
    } else if d == 5 {
        '5'
    } else if d == 6 {
        '6'
    } else if d == 7 {
        '7'
    } else if d == 8 {
        '8'
    } else {
        '9'
    }
}

/// The usual decimal rendering of a number, most significant digit first,
/// no leading zeros (except for the number zero itself).
pub open spec fn spec_digits(n: nat) -> Seq<char>
    decreases n,
{
    if n < 10 {
        seq![digit_char(n)]
    } else {
        spec_digits(n / 10).push(digit_char(n % 10))
    }
}

fn digit_to_char(d: u16) -> (c: char)
    requires
        d < 10,
    ensures
        c == digit_char(d as nat),
{
    if d == 0 {
        '0'
    } else if d == 1 {
        '1'
    } else if d == 2 {
        '2'
    } else if d == 3 {
        '3'
    } else if d == 4 {
        '4'
    } else if d == 5 {
        '5'
    } else if d == 6 {
        '6'
    } else if d == 7 {
        '7'
    } else if d == 8 {
        '8'
    } else {
        '9'
    }
}

/// Renders a number in decimal.
pub fn u16_string(n: u16) -> (r: String)
    ensures
        r@ == spec_digits(n as nat),
    decreases n,
{
    if n < 10 {
        let mut s = String::new();
        push_char(&mut s, digit_to_char(n));
        proof {
            assert(s@ =~= seq![digit_char(n as nat)]);
        }
        s
    } else {
        let mut s = u16_string(n / 10);
        push_char(&mut s, digit_to_char(n % 10));
        s
    }
}

/// The views of a sequence of strings.
pub open spec fn strings_view(s: Seq<String>) -> Seq<Seq<char>> {
    s.map_values(|x: String| x@)
}

/// The strings joined with a single space between consecutive items.
pub open spec fn spec_join_space(s: Seq<Seq<char>>) -> Seq<char>
    decreases s.len(),
{
    if s.len() == 0 {
        Seq::empty()
    } else if s.len() == 1 {
        s[0]
    } else {
        spec_join_space(s.drop_last()) + seq![' '] + s.last()
    }
}

/// Joins strings with single spaces, as slice join with a space does.
pub fn join_space(items: &Vec<String>) -> (r: String)
    ensures
        r@ == spec_join_space(strings_view(items@)),
{
    let mut r = String::new();
    let mut i: usize = 0;
    while i < items.len()
        invariant
            i <= items.len(),
            r@ == spec_join_space(strings_view(items@.subrange(0, i as int))),
        decreases items.len() - i,
    {
        if i > 0 {
            r.append(" ");
        }
        r.append(items[i].as_str());
        proof {
            reveal_strlit(" ");
            assert(" "@ =~= seq![' ']);
            let full = strings_view(items@.subrange(0, i + 1 as int));
            assert(full.drop_last() =~~= strings_view(items@.subrange(0, i as int)));
            assert(full.last() == items@[i as int]@);
            if i == 0 {
                assert(r@ =~= spec_join_space(full));
            }
        }
        i += 1;
    }
    proof {
        assert(items@.subrange(0, items@.len() as int) =~= items@);
    }
    r
}

/// Each prefix extended with the given tail.
pub open spec fn spec_with_tail(prefixes: Seq<Seq<char>>, tail: Seq<char>) -> Seq<Seq<char>>
    decreases prefixes.len(),
{
    if prefixes.len() == 0 {
        Seq::empty()
    } else {
        spec_with_tail(prefixes.drop_last(), tail).push(prefixes.last() + tail)
    }
}

/// The class-name list of a nested scope: every inherited prefix with the
/// tail appended, then every inherited prefix unchanged, in order.
pub open spec fn spec_suffixed_classes(prefixes: Seq<Seq<char>>, tail: Seq<char>) -> Seq<
    Seq<char>,
> {
    spec_with_tail(prefixes, tail) + prefixes
}

/// Builds the class-name list for a nested scope: every inherited prefix
/// with `tail` appended, then every inherited prefix unchanged.
pub fn suffixed_classes(prefixes: &Vec<String>, tail: &str) -> (r: Vec<String>)
    ensures
        strings_view(r@) == spec_suffixed_classes(strings_view(prefixes@), tail@),
{
    let mut r: Vec<String> = Vec::new();
    let mut i: usize = 0;
    while i < prefixes.len()
        invariant
            i <= prefixes.len(),
            strings_view(r@) == spec_with_tail(strings_view(prefixes@.subrange(0, i as int)), tail@),
        decreases prefixes.len() - i,
    {
        r.push(prefixes[i].clone().concat(tail));
        proof {
            let prev = strings_view(prefixes@.subrange(0, i as int));
            let cur = strings_view(prefixes@.subrange(0, i + 1 as int));
            assert(cur.drop_last() =~~= prev);
            assert(cur.last() == prefixes@[i as int]@);
            assert(strings_view(r@) =~~= spec_with_tail(cur, tail@));
        }
        i += 1;
    }
    proof {
        assert(prefixes@.subrange(0, prefixes@.len() as int) =~= prefixes@);
    }
    let ghost tailed = spec_with_tail(strings_view(prefixes@), tail@);
    let mut j: usize = 0;
    while j < prefixes.len()
        invariant
            j <= prefixes.len(),
            strings_view(r@) == tailed + strings_view(prefixes@.subrange(0, j as int)),
        decreases prefixes.len() - j,
    {
        let ghost pre = r@;
        r.push(prefixes[j].clone());
        proof {
            assert(strings_view(r@) =~~= strings_view(pre).push(prefixes@[j as int]@));
            assert(strings_view(prefixes@.subrange(0, j + 1 as int)) =~~= strings_view(
                prefixes@.subrange(0, j as int),
            ).push(prefixes@[j as int]@));
            assert(strings_view(r@) =~~= tailed + strings_view(
                prefixes@.subrange(0, j + 1 as int),
            ));
        }
        j += 1;
    }
    proof {
        assert(prefixes@.subrange(0, prefixes@.len() as int) =~= prefixes@);
        assert(strings_view(r@) =~~= spec_suffixed_classes(strings_view(prefixes@), tail@));
    }
    r
}

} // verus!
