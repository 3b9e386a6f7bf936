//! Output naming and the little bookkeeping rules of the batch runner: the
//! simplified file name an input is stored under, the counted variant that
//! keeps names unique, the processing-status reading of a ledger row, and
//! the playlist file contents.

use vstd::prelude::*;
use vstd::string::StrSliceExecFns;
use vstd::string::StringExecFns;
use crate::text::{is_alnum, char_is_alphanumeric, push_char, str_chars, str_eq, string_of_range};

verus! {

/// What std's Path::file_stem (read lossily as text) returns for a path: the
/// final component without its extension. It depends on the path alone.
pub uninterp spec fn spec_file_stem(path: Seq<char>) -> Option<Seq<char>>;

/// Relies on std's Path::file_stem: the final path component, without its
/// final `.`-extension; nothing for paths without a file name. The stem of a
/// valid UTF-8 path is itself valid UTF-8, so reading it lossily drops
/// nothing.
#[verifier::external_body]
fn path_file_stem(path: &str) -> (r: Option<String>)
    ensures
        (match r {
            Some(s) => spec_file_stem(path@) == Some(s@),
            None => spec_file_stem(path@) is None,
        }),
{
    std::path::Path::new(path).file_stem().map(|stem| stem.to_string_lossy().into_owned())
}

/// The simplified name derived from a file stem: its alphanumeric
/// characters, at most 32 of them.
pub open spec fn simple_name_of(stem: Seq<char>) -> Seq<char> {
    let kept = stem.filter(|c: char| is_alnum(c));
    if kept.len() <= 32 {
        kept
    } else {
        kept.take(32)
    }
}

/// A short name for an input file: the alphanumeric characters of its stem,
/// capped at 32. Distinct inputs may share it.
#[verifier::loop_isolation(false)]
pub fn generate_nonunique_simple_name(original_name: &str) -> (r: String)
    ensures
        r@ == simple_name_of(
            match spec_file_stem(original_name@) {
                Some(stem) => stem,
                None => Seq::<char>::empty(),
            },
        ),
{
    let stem: String = match path_file_stem(original_name) {
        Some(s) => s,
        None => String::new(),
    };
    let ghost st = stem@;
    proof {
        reveal(Seq::filter);
        assert(st.take(0) =~= Seq::<char>::empty());
        assert(simple_name_of(Seq::<char>::empty()) =~= Seq::<char>::empty());
    }
    let chars = str_chars(stem.as_str());
    let mut out = String::new();
    let mut kept: usize = 0;
    let mut i: usize = 0;
    while i < chars.len()
        invariant
            i <= chars@.len(),
            chars@ == st,
            kept == out@.len(),
            kept <= 32,
            out@ == simple_name_of(st.take(i as int)),
            kept < 32 ==> out@ == st.take(i as int).filter(|c: char| is_alnum(c)),
        decreases chars@.len() - i,
    {
        let c = chars[i];
        proof {
            reveal(Seq::filter);
            assert(st.take(i + 1).drop_last() =~= st.take(i as int));
            assert(st.take(i + 1).last() == st[i as int]);
        }
        if char_is_alphanumeric(c) {
            if kept < 32 {
                push_char(&mut out, c);
                kept = kept + 1;
                proof {
                    let f = st.take(i + 1).filter(|c: char| is_alnum(c));
                    assert(f == st.take(i as int).filter(|c: char| is_alnum(c)).push(st[i as int]));
                    if f.len() > 32 {
                        assert(f.take(32) =~= out@);
                    }
                }
            } else {
                proof {
                    let f0 = st.take(i as int).filter(|c: char| is_alnum(c));
                    let f = st.take(i + 1).filter(|c: char| is_alnum(c));
                    assert(f == f0.push(st[i as int]));
                    assert(f0.len() >= 32);
                    assert(f.take(32) =~= f0.take(32));
                    if f0.len() <= 32 {
                        assert(out@ == f0);
                        assert(f0.take(32) =~= f0);
                    }
                }
            }
        }
        i = i + 1;
    }
    proof {
        assert(st.take(st.len() as int) =~= st);
    }
    out
}

/// The decimal digits of `n`, most significant first.
pub open spec fn dec_seq(n: nat) -> Seq<char>
    decreases n,
{
    if n < 10 {
        seq![(48 + n) as u8 as char]
    } else {
        dec_seq(n / 10).push((48 + n % 10) as u8 as char)
    }
}

/// `n` written in decimal, padded with a leading zero to at least two
/// digits.
pub open spec fn padded_count(n: nat) -> Seq<char> {
    if n < 10 {
        seq!['0'] + dec_seq(n)
    } else {
        dec_seq(n)
    }
}

fn dec_digits(n: u32) -> (v: Vec<char>)
    ensures
        v@ == dec_seq(n as nat),
    decreases n,
{
    if n < 10 {
        let mut v: Vec<char> = Vec::new();
        v.push((48 + n as u8) as char);
        proof {
            assert(v@ =~= seq![(48 + n as nat) as u8 as char]);
        }
        v
    } else {
        let mut v = dec_digits(n / 10);
        v.push((48 + (n % 10) as u8) as char);
        v
    }
}

/// The name an input is stored under once `count` earlier entries share its
/// simplified name: the simple name itself for a count of zero, and the
/// simple name with a two-digit counter appended otherwise.
pub fn generate_simple_name(original_name: &str, count: i32) -> (r: String)
    requires
        count >= 0,
    ensures
        count == 0 ==> r@ == simple_name_of(
            match spec_file_stem(original_name@) {
                Some(stem) => stem,
                None => Seq::<char>::empty(),
            },
        ),
        count > 0 ==> r@ == simple_name_of(
            match spec_file_stem(original_name@) {
                Some(stem) => stem,
                None => Seq::<char>::empty(),
            },
        ) + seq!['_'] + padded_count(count as nat),
{
    let simple = generate_nonunique_simple_name(original_name);
    if count > 0 {
        let mut r = simple;
        push_char(&mut r, '_');
        let n: u32 = count as u32;
        if n < 10 {
            push_char(&mut r, '0');
        }
        let digits = dec_digits(n);
        let suffix = string_of_range(&digits, 0, digits.len());
        proof {
            assert(digits@.subrange(0, digits@.len() as int) =~= digits@);
        }
        r.append(suffix.as_str());
        r
    } else {
        simple
    }
}

/// How far an input got in an earlier run, read from its ledger row.
#[derive(Debug, Clone, Copy, PartialEq, Eq, Structural)]
pub enum ProcessingStatus {
    Processed,
    NeedsReprocessing,
    NotProcessed,
}

/// Reads the recorded status of an input: `success` means done, any other
/// recorded text asks for reprocessing, and no record means untouched.
pub fn get_processing_status(status: &Option<String>) -> (r: ProcessingStatus)
    ensures
        r == (match status {
            Some(s) => if s@ == "success"@ {
                ProcessingStatus::Processed
            } else {
                ProcessingStatus::NeedsReprocessing
            },
            None => ProcessingStatus::NotProcessed,
        }),
{
    match status {
        Some(s) => {
            if str_eq(s.as_str(), "success") {
                ProcessingStatus::Processed
            } else {
                ProcessingStatus::NeedsReprocessing
            }
        },
        None => ProcessingStatus::NotProcessed,
    }
}

/// The text of a playlist file: each entry on a line of its own, in order.
pub open spec fn m3u_of(names: Seq<Seq<char>>) -> Seq<char>
    decreases names.len(),
{
    if names.len() == 0 {
        Seq::empty()
    } else {
        m3u_of(names.drop_last()) + names.last() + seq!['\n']
    }
}

/// Writes the playlist contents: the entries in order, one per line.
pub fn m3u_playlist_contents(filenames: &Vec<String>) -> (r: String)
    ensures
        r@ == m3u_of(filenames.deep_view()),
{
    let mut r = String::new();
    let mut i: usize = 0;
    proof {
        assert(filenames.deep_view().take(0) =~= Seq::<Seq<char>>::empty());
    }
    while i < filenames.len()
        invariant
            i <= filenames@.len(),
            filenames.deep_view().len() == filenames@.len(),
            r@ == m3u_of(filenames.deep_view().take(i as int)),
        decreases filenames@.len() - i,
    {
        let name = &filenames[i];
        r.append(name.as_str());
        push_char(&mut r, '\n');
        proof {
            let dv = filenames.deep_view();
            assert(dv.take(i + 1).drop_last() =~= dv.take(i as int));
            assert(dv.take(i + 1).last() == dv[i as int]);
            assert(dv[i as int] == filenames@[i as int]@);
        }
        i = i + 1;
    }
    proof {
        assert(filenames.deep_view().take(filenames@.len() as int) =~= filenames.deep_view());
    }
    r
}

} // verus!
