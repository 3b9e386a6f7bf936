//! Colors and the color argument parser: named presets, `r,g,b` triplets,
//! and six-digit hex codes with optional leading `#`.

use vstd::prelude::*;
use crate::text::{
    has_comma, contains_comma, split_commas, spec_trim, spec_parse_u8, str_chars, str_eq,
    trim_range, parse_u8_range,
};

verus! {

/// One pixel: red, green and blue, eight bits each.
#[derive(Clone, Copy, PartialEq, Eq, Structural, Debug)]
pub struct Rgb {
    pub r: u8,
    pub g: u8,
    pub b: u8,
}

/// Is `c` an ASCII hexadecimal digit?
pub open spec fn is_hex_digit(c: char) -> bool {
    let u = c as u32;
    (48 <= u && u <= 57) || (97 <= u && u <= 102) || (65 <= u && u <= 70)
}

pub open spec fn hex_digit_value(c: char) -> int {
    let u = c as u32;
    if 48 <= u && u <= 57 {
        u - 48
    } else if 97 <= u && u <= 102 {
        u - 87
    } else {
        u - 55
    }
}

/// The byte named by two characters of a hex color code, read as
/// `u8::from_str_radix` reads them: two hex digits, or a `+` followed by one
/// hex digit.
pub open spec fn hex_byte_pair(c0: char, c1: char) -> Option<u8> {
    if is_hex_digit(c0) && is_hex_digit(c1) {
        Some((hex_digit_value(c0) * 16 + hex_digit_value(c1)) as u8)
    } else if c0 == '+' && is_hex_digit(c1) {
        Some(hex_digit_value(c1) as u8)
    } else {
        None
    }
}

/// `s` with every leading `#` removed, as `trim_start_matches('#')` leaves it.
pub open spec fn strip_hashes(s: Seq<char>) -> Seq<char>
    decreases s.len(),
{
    if s.len() > 0 && s.first() == '#' {
        strip_hashes(s.drop_first())
    } else {
        s
    }
}

/// The byte one comma-separated piece contributes to a triplet: its trimmed
/// text read as a decimal byte, or 0 where that fails.
pub open spec fn part_value(p: Seq<char>) -> u8 {
    match spec_parse_u8(spec_trim(p)) {
        Some(x) => x,
        None => 0u8,
    }
}

/// The bytes contributed by a list of comma-separated pieces, in order.
pub open spec fn values_of(parts: Seq<Seq<char>>) -> Seq<u8>
    decreases parts.len(),
{
    if parts.len() == 0 {
        Seq::empty()
    } else {
        values_of(parts.drop_last()).push(part_value(parts.last()))
    }
}

proof fn lemma_values_of_push(parts: Seq<Seq<char>>, p: Seq<char>)
    ensures
        values_of(parts.push(p)) == values_of(parts).push(part_value(p)),
{
    assert(parts.push(p).drop_last() =~= parts);
    assert(parts.push(p).last() == p);
}

/// What `parse_color` accepts: the named presets `black`, `sky` and `debug`;
/// any text with a comma, read as a decimal triplet whose unreadable or
/// missing entries count as 0 and whose wrong arity falls back to black; and
/// otherwise a six-character hex code after leading `#`s are dropped.
pub open spec fn spec_parse_color(s: Seq<char>) -> Option<Rgb> {
    if s == "black"@ {
        Some(Rgb { r: 0, g: 0, b: 0 })
    } else if s == "sky"@ {
        Some(Rgb { r: 128, g: 178, b: 255 })
    } else if s == "debug"@ {
        Some(Rgb { r: 255, g: 0, b: 255 })
    } else if has_comma(s) {
        let vals = values_of(split_commas(s));
        if vals.len() == 3 {
            Some(Rgb { r: vals[0], g: vals[1], b: vals[2] })
        } else {
            Some(Rgb { r: 0, g: 0, b: 0 })
        }
    } else {
        let t = strip_hashes(s);
        if t.len() == 6 {
            match (hex_byte_pair(t[0], t[1]), hex_byte_pair(t[2], t[3]), hex_byte_pair(
                t[4],
                t[5],
            )) {
                (Some(r), Some(g), Some(b)) => Some(Rgb { r, g, b }),
                _ => None,
            }
        } else {
            None
        }
    }
}

fn hex_pair(c0: char, c1: char) -> (r: Option<u8>)
    ensures
        r == hex_byte_pair(c0, c1),
{
    let u0: u32 = c0 as u32;
    let u1: u32 = c1 as u32;
    let d0: Option<u32> = if 48 <= u0 && u0 <= 57 {
        Some(u0 - 48)
    } else if 97 <= u0 && u0 <= 102 {
        Some(u0 - 87)
    } else if 65 <= u0 && u0 <= 70 {
        Some(u0 - 55)
    } else {
        None
    };
    let d1: Option<u32> = if 48 <= u1 && u1 <= 57 {
        Some(u1 - 48)
    } else if 97 <= u1 && u1 <= 102 {
        Some(u1 - 87)
    } else if 65 <= u1 && u1 <= 70 {
        Some(u1 - 55)
    } else {
        None
    };
    match (d0, d1) {
        (Some(h), Some(l)) => Some((h * 16 + l) as u8),
        (None, Some(l)) => {
            if c0 == '+' {
                Some(l as u8)
            } else {
                None
            }
        },
        _ => None,
    }
}

/// The bytes of all comma-separated pieces of `v`, each trimmed and read as
/// a decimal byte with 0 standing in for unreadable text.
#[verifier::loop_isolation(false)]
fn parse_triplet_values(v: &Vec<char>) -> (vals: Vec<u8>)
    ensures
        vals@ == values_of(split_commas(v@)),
{
    let ghost s = v@;
    let mut vals: Vec<u8> = Vec::new();
    let ghost mut parts_done: Seq<Seq<char>> = Seq::empty();
    let mut ps: usize = 0;
    let mut i: usize = 0;
    proof {
        crate::text::lemma_split_commas_nonempty(s);
        assert(split_commas(s) =~= parts_done + seq![
            s.subrange(0, 0) + split_commas(s.skip(0)).first(),
        ] + split_commas(s.skip(0)).drop_first()) by {
            assert(s.skip(0) =~= s);
            assert(s.subrange(0, 0) + split_commas(s).first() =~= split_commas(s).first());
        }
    }
    while i < v.len()
        invariant
            ps <= i <= v.len(),
            vals@ == values_of(parts_done),
            split_commas(s) == parts_done + seq![
                s.subrange(ps as int, i as int) + split_commas(s.skip(i as int)).first(),
            ] + split_commas(s.skip(i as int)).drop_first(),
        decreases v.len() - i,
    {
        proof {
            assert(s.skip(i as int).first() == s[i as int]);
            assert(s.skip(i as int).drop_first() =~= s.skip(i + 1));
        }
        if v[i] == ',' {
            let (t0, t1) = trim_range(v, ps, i);
            let pv: u8 = match parse_u8_range(v, t0, t1) {
                Some(x) => x,
                None => 0,
            };
            vals.push(pv);
            proof {
                let part = s.subrange(ps as int, i as int);
                assert(pv == part_value(part));
                // A comma closes the current piece: the splitter's head piece
                // is exactly the text scanned since `ps`.
                crate::text::lemma_split_commas_nonempty(s.skip(i + 1));
                assert(split_commas(s.skip(i as int)) == seq![Seq::<char>::empty()]
                    + split_commas(s.skip(i + 1)));
                assert(part + split_commas(s.skip(i as int)).first() =~= part);
                lemma_values_of_push(parts_done, part);
                parts_done = parts_done.push(part);
                assert(split_commas(s) =~= parts_done + seq![
                    s.subrange(i + 1, i + 1) + split_commas(s.skip(i + 1)).first(),
                ] + split_commas(s.skip(i + 1)).drop_first()) by {
                    assert(s.subrange(i + 1, i + 1) + split_commas(s.skip(i + 1)).first()
                        =~= split_commas(s.skip(i + 1)).first());
                    assert(seq![Seq::<char>::empty()] + split_commas(s.skip(i + 1))
                        == split_commas(s.skip(i as int)));
                }
            }
            ps = i + 1;
        } else {
            proof {
                let rest = split_commas(s.skip(i + 1));
                assert(split_commas(s.skip(i as int)) == seq![
                    seq![s[i as int]] + rest.first(),
                ] + rest.drop_first());
                assert(s.subrange(ps as int, i as int) + split_commas(
                    s.skip(i as int),
                ).first() =~= s.subrange(ps as int, i + 1) + rest.first());
            }
        }
        i = i + 1;
    }
    let (t0, t1) = trim_range(v, ps, v.len());
    let pv: u8 = match parse_u8_range(v, t0, t1) {
        Some(x) => x,
        None => 0,
    };
    vals.push(pv);
    proof {
        let part = s.subrange(ps as int, s.len() as int);
        assert(s.skip(s.len() as int) =~= Seq::<char>::empty());
        assert(split_commas(s.skip(s.len() as int)) == seq![Seq::<char>::empty()]);
        assert(part + split_commas(s.skip(s.len() as int)).first() =~= part);
        lemma_values_of_push(parts_done, part);
        assert(parts_done + seq![part] + split_commas(s.skip(s.len() as int)).drop_first()
            =~= parts_done.push(part));
        assert(split_commas(s) == parts_done.push(part));
    }
    vals
}

/// Reads a color argument: `black`, `sky`, `debug`, a decimal `r,g,b`
/// triplet, or a six-digit hex code with optional leading `#`s. Yields
/// nothing exactly where the text fits none of those shapes.
#[verifier::loop_isolation(false)]
pub fn parse_color(arg: &str) -> (r: Option<Rgb>)
    ensures
        r == spec_parse_color(arg@),
{
    if str_eq(arg, "black") {
        return Some(Rgb { r: 0, g: 0, b: 0 });
    }
    if str_eq(arg, "sky") {
        return Some(Rgb { r: 128, g: 178, b: 255 });
    }
    if str_eq(arg, "debug") {
        return Some(Rgb { r: 255, g: 0, b: 255 });
    }
    let v = str_chars(arg);
    if contains_comma(&v) {
        let vals = parse_triplet_values(&v);
        if vals.len() == 3 {
            Some(Rgb { r: vals[0], g: vals[1], b: vals[2] })
        } else {
            Some(Rgb { r: 0, g: 0, b: 0 })
        }
    } else {
        let ghost s = v@;
        proof {
            assert(s.skip(0) =~= s);
        }
        let mut h: usize = 0;
        while h < v.len() && v[h] == '#'
            invariant
                h <= v.len(),
                strip_hashes(s) == strip_hashes(s.skip(h as int)),
            decreases v.len() - h,
        {
            proof {
                assert(s.skip(h as int).first() == s[h as int]);
                assert(s.skip(h as int).drop_first() =~= s.skip(h + 1));
            }
            h = h + 1;
        }
        proof {
            assert(strip_hashes(s.skip(h as int)) == s.skip(h as int));
            assert(strip_hashes(s).len() == s.len() - h);
        }
        if v.len() - h == 6 {
            let p0 = hex_pair(v[h], v[h + 1]);
            let p1 = hex_pair(v[h + 2], v[h + 3]);
            let p2 = hex_pair(v[h + 4], v[h + 5]);
            proof {
                assert(strip_hashes(s)[0] == s[h as int]);
                assert(strip_hashes(s)[1] == s[h + 1]);
                assert(strip_hashes(s)[2] == s[h + 2]);
                assert(strip_hashes(s)[3] == s[h + 3]);
                assert(strip_hashes(s)[4] == s[h + 4]);
                assert(strip_hashes(s)[5] == s[h + 5]);
            }
            match (p0, p1, p2) {
                (Some(cr), Some(cg), Some(cb)) => Some(Rgb { r: cr, g: cg, b: cb }),
                _ => None,
            }
        } else {
            None
        }
    }
}

} // verus!
