use vstd::prelude::*;

verus! {

use crate::strutil::chars_to_string;

/// ASCII lower-casing of one character.
pub open spec fn spec_lower(c: char) -> char {
    if 'A' <= c && c <= 'Z' {
        (((c as u32) + 32) as u8) as char
    } else {
        c
    }
}

/// ASCII upper-casing of one character.
pub open spec fn spec_upper(c: char) -> char {
    if 'a' <= c && c <= 'z' {
        (((c as u32) - 32) as u8) as char
    } else {
        c
    }
}

/// What one character contributes to the snake-case form: an upper-case
/// letter becomes an underscore (unless it starts the text) and its
/// lower-case form; anything else passes through.
pub open spec fn spec_snake_char(c: char, first: bool) -> Seq<char> {
    if 'A' <= c && c <= 'Z' {
        if first {
            seq![spec_lower(c)]
        } else {
            seq!['_', spec_lower(c)]
        }
    } else {
        seq![c]
    }
}

/// The snake-case form of a text.
pub open spec fn spec_snake(s: Seq<char>) -> Seq<char>
    decreases s.len(),
{
    if s.len() == 0 {
        Seq::empty()
    } else {
        spec_snake(s.drop_last()) + spec_snake_char(s.last(), s.len() == 1)
    }
}

/// The camel-case form of a text: an underscore is dropped and upper-cases
/// the next character.
pub open spec fn spec_camel(s: Seq<char>, target: bool) -> Seq<char>
    decreases s.len(),
{
    if s.len() == 0 {
        Seq::empty()
    } else if s[0] == '_' {
        spec_camel(s.drop_first(), true)
    } else if target {
        seq![spec_upper(s[0])] + spec_camel(s.drop_first(), false)
    } else {
        seq![s[0]] + spec_camel(s.drop_first(), false)
    }
}

/// Converts camelCase text to snake_case, exactly as `spec_snake` says.
pub fn to_snake_case(txt: &str) -> (r: String)
    ensures
        r@ == spec_snake(txt@),
{
    let n = txt.unicode_len();
    let mut out: Vec<char> = Vec::new();
    let mut i: usize = 0;
    proof {
        assert(txt@.take(0) =~= Seq::<char>::empty());
    }
    while i < n
        invariant
            n == txt@.len(),
            0 <= i <= n,
            out@ == spec_snake(txt@.take(i as int)),
        decreases n - i,
    {
        let c = txt.get_char(i);
        proof {
            assert(txt@.take(i + 1 as int).drop_last() =~= txt@.take(i as int));
            assert(txt@.take(i + 1 as int).last() == txt@[i as int]);
        }
        if c >= 'A' && c <= 'Z' {
            let lower = (((c as u32) + 32) as u8) as char;
            if i == 0 {
                out.push(lower);
            } else {
                out.push('_');
                out.push(lower);
            }
        } else {
            out.push(c);
        }
        proof {
            assert(out@ =~= spec_snake(txt@.take(i + 1 as int)));
        }
        i += 1;
    }
    proof {
        assert(txt@.take(n as int) =~= txt@);
    }
    chars_to_string(&out)
}

/// Converts snake_case text to camelCase, exactly as `spec_camel` says.
pub fn to_camel_case(txt: &str) -> (r: String)
    ensures
        r@ == spec_camel(txt@, false),
{
    let n = txt.unicode_len();
    let mut out: Vec<char> = Vec::new();
    let mut is_target = false;
    let mut i: usize = 0;
    proof {
        assert(txt@.skip(0) =~= txt@);
    }
    while i < n
        invariant
            n == txt@.len(),
            0 <= i <= n,
            spec_camel(txt@, false) == out@ + spec_camel(txt@.skip(i as int), is_target),
        decreases n - i,
    {
        let c = txt.get_char(i);
        proof {
            assert(txt@.skip(i as int).drop_first() =~= txt@.skip(i + 1 as int));
            assert(txt@.skip(i as int)[0] == txt@[i as int]);
        }
        if c == '_' {
            is_target = true;
        } else if is_target {
            let upper = if c >= 'a' && c <= 'z' {
                (((c as u32) - 32) as u8) as char
            } else {
                c
            };
            out.push(upper);
            is_target = false;
            proof {
                assert(out@ + spec_camel(txt@.skip(i + 1 as int), false) =~= out@.drop_last() + (
                seq![spec_upper(txt@[i as int])] + spec_camel(txt@.skip(i + 1 as int), false)));
            }
        } else {
            out.push(c);
            proof {
                assert(out@ + spec_camel(txt@.skip(i + 1 as int), false) =~= out@.drop_last() + (
                seq![txt@[i as int]] + spec_camel(txt@.skip(i + 1 as int), false)));
            }
        }
        i += 1;
    }
    proof {
        assert(txt@.skip(n as int) =~= Seq::<char>::empty());
        assert(out@ + Seq::<char>::empty() =~= out@);
    }
    chars_to_string(&out)
}

} // verus!
