//! Diagnostic rendering switches: a read-only capability object threaded
//! through rendering, its no-op twin, and the parser for the comma-separated
//! `key=value` debug mini-language that fills it.

use vstd::prelude::*;
use crate::color::{Rgb, parse_color, spec_parse_color};
use crate::text::{
    split_commas, split_once_eq, lemma_split_once_eq_none, lemma_split_once_eq_at,
    lemma_split_commas_nonempty, range_eq_str, string_of_range, find_eq, str_chars,
};

verus! {

/// The abstract value of a set of debug flags.
pub ghost struct SpecDebugFlags {
    pub zero_heightmap: bool,
    pub texture_mode: Option<Seq<char>>,
    pub start_point_color: Option<Rgb>,
    pub end_point_color: Option<Rgb>,
}

/// All diagnostics off.
pub open spec fn spec_default_flags() -> SpecDebugFlags {
    SpecDebugFlags {
        zero_heightmap: false,
        texture_mode: None,
        start_point_color: None,
        end_point_color: None,
    }
}

/// Read-only diagnostic capabilities consulted during rendering.
pub trait DebugFlags {
    /// Pretend every height sample is zero.
    spec fn spec_zero_heightmap(&self) -> bool;

    /// Alternate color source or diagnostic output (`heightmap`, `zbuffer`).
    spec fn spec_texture_mode(&self) -> Option<Seq<char>>;

    /// Color stamped on gap-fill start points.
    spec fn spec_start_point_color(&self) -> Option<Rgb>;

    /// Color stamped on gap-fill end points.
    spec fn spec_end_point_color(&self) -> Option<Rgb>;

    fn zero_heightmap(&self) -> (r: bool)
        ensures
            r == self.spec_zero_heightmap(),
    ;

    fn texture_mode(&self) -> (r: Option<&str>)
        ensures
            match r {
                Some(s) => self.spec_texture_mode() == Some(s@),
                None => self.spec_texture_mode() is None,
            },
    ;

    fn start_point_color(&self) -> (r: Option<Rgb>)
        ensures
            r == self.spec_start_point_color(),
    ;

    fn end_point_color(&self) -> (r: Option<Rgb>)
        ensures
            r == self.spec_end_point_color(),
    ;
}

/// Debug flags as parsed from the command line.
pub struct CliDebugFlags {
    pub zero_heightmap: bool,
    pub texture_mode: Option<String>,
    pub start_point_color: Option<Rgb>,
    pub end_point_color: Option<Rgb>,
}

impl View for CliDebugFlags {
    type V = SpecDebugFlags;

    open spec fn view(&self) -> SpecDebugFlags {
        SpecDebugFlags {
            zero_heightmap: self.zero_heightmap,
            texture_mode: match self.texture_mode {
                Some(s) => Some(s@),
                None => None,
            },
            start_point_color: self.start_point_color,
            end_point_color: self.end_point_color,
        }
    }
}

impl Default for CliDebugFlags {
    fn default() -> (r: Self)
        ensures
            r@ == spec_default_flags(),
    {
        CliDebugFlags {
            zero_heightmap: false,
            texture_mode: None,
            start_point_color: None,
            end_point_color: None,
        }
    }
}

impl DebugFlags for CliDebugFlags {
    open spec fn spec_zero_heightmap(&self) -> bool {
        self.zero_heightmap
    }

    open spec fn spec_texture_mode(&self) -> Option<Seq<char>> {
        self@.texture_mode
    }

    open spec fn spec_start_point_color(&self) -> Option<Rgb> {
        self.start_point_color
    }

    open spec fn spec_end_point_color(&self) -> Option<Rgb> {
        self.end_point_color
    }

    fn zero_heightmap(&self) -> (r: bool) {
        self.zero_heightmap
    }

    fn texture_mode(&self) -> (r: Option<&str>) {
        match &self.texture_mode {
            Some(s) => Some(s.as_str()),
            None => None,
        }
    }

    fn start_point_color(&self) -> (r: Option<Rgb>) {
        self.start_point_color
    }

    fn end_point_color(&self) -> (r: Option<Rgb>) {
        self.end_point_color
    }
}

/// The no-op policy: every diagnostic is off.
pub struct NullDebugFlags;

impl Default for NullDebugFlags {
    fn default() -> (r: Self)
        ensures
            r.spec_zero_heightmap() == false,
    {
        NullDebugFlags
    }
}

impl DebugFlags for NullDebugFlags {
    open spec fn spec_zero_heightmap(&self) -> bool {
        false
    }

    open spec fn spec_texture_mode(&self) -> Option<Seq<char>> {
        None
    }

    open spec fn spec_start_point_color(&self) -> Option<Rgb> {
        None
    }

    open spec fn spec_end_point_color(&self) -> Option<Rgb> {
        None
    }

    fn zero_heightmap(&self) -> (r: bool) {
        false
    }

    fn texture_mode(&self) -> (r: Option<&str>) {
        None
    }

    fn start_point_color(&self) -> (r: Option<Rgb>) {
        None
    }

    fn end_point_color(&self) -> (r: Option<Rgb>) {
        None
    }
}

/// What one `key=value` entry does to the flags. `heightmap=zero` turns the
/// zero-heightmap bypass on, `texture` stores its value, `startpt` and
/// `endpt` store their value read as a color; anything else (including an
/// entry without `=`) changes nothing.
pub open spec fn apply_debug_entry(f: SpecDebugFlags, e: Seq<char>) -> SpecDebugFlags {
    match split_once_eq(e) {
        Some(kv) => {
            if kv.0 == "heightmap"@ && kv.1 == "zero"@ {
                SpecDebugFlags { zero_heightmap: true, ..f }
            } else if kv.0 == "texture"@ {
                SpecDebugFlags { texture_mode: Some(kv.1), ..f }
            } else if kv.0 == "startpt"@ {
                SpecDebugFlags { start_point_color: spec_parse_color(kv.1), ..f }
            } else if kv.0 == "endpt"@ {
                SpecDebugFlags { end_point_color: spec_parse_color(kv.1), ..f }
            } else {
                f
            }
        },
        None => f,
    }
}

/// The flags after applying a list of entries in order; later entries win.
pub open spec fn apply_debug_entries(f: SpecDebugFlags, entries: Seq<Seq<char>>) -> SpecDebugFlags
    decreases entries.len(),
{
    if entries.len() == 0 {
        f
    } else {
        apply_debug_entries(apply_debug_entry(f, entries.first()), entries.drop_first())
    }
}

proof fn lemma_apply_entries_push(f: SpecDebugFlags, entries: Seq<Seq<char>>, e: Seq<char>)
    ensures
        apply_debug_entries(f, entries.push(e)) == apply_debug_entry(
            apply_debug_entries(f, entries),
            e,
        ),
    decreases entries.len(),
{
    if entries.len() == 0 {
        assert(entries.push(e).drop_first() =~= Seq::<Seq<char>>::empty());
    } else {
        assert(entries.push(e).first() == entries.first());
        assert(entries.push(e).drop_first() =~= entries.drop_first().push(e));
        lemma_apply_entries_push(apply_debug_entry(f, entries.first()), entries.drop_first(), e);
    }
}

/// Is this entry a `key=value` pair whose key no arm recognizes? Such
/// entries draw a warning at the boundary; entries without `=` do not.
pub open spec fn entry_unrecognized(e: Seq<char>) -> bool {
    match split_once_eq(e) {
        Some(kv) => !((kv.0 == "heightmap"@ && kv.1 == "zero"@) || kv.0 == "texture"@ || kv.0
            == "startpt"@ || kv.0 == "endpt"@),
        None => false,
    }
}

/// The entries of a list that draw a warning, in order.
pub open spec fn unrecognized_of(entries: Seq<Seq<char>>) -> Seq<Seq<char>> {
    entries.filter(|e: Seq<char>| entry_unrecognized(e))
}

proof fn lemma_unrecognized_push(entries: Seq<Seq<char>>, e: Seq<char>)
    ensures
        unrecognized_of(entries.push(e)) == if entry_unrecognized(e) {
            unrecognized_of(entries).push(e)
        } else {
            unrecognized_of(entries)
        },
{
    reveal(Seq::filter);
    assert(entries.push(e).drop_last() =~= entries);
    assert(entries.push(e).last() == e);
}

/// Parses the comma-separated `key=value` debug mini-language. Yields the
/// flags the entries configure, later entries overriding earlier ones, and
/// the list of entries that no key matched, for the boundary layer to warn
/// about.
#[verifier::loop_isolation(false)]
pub fn parse_debug_flags(debug_str: &str) -> (r: (CliDebugFlags, Vec<String>))
    ensures
        r.0@ == apply_debug_entries(spec_default_flags(), split_commas(debug_str@)),
        r.1.deep_view() == unrecognized_of(split_commas(debug_str@)),
{
    let v = str_chars(debug_str);
    let ghost s = v@;
    let mut flags = CliDebugFlags::default();
    let mut warnings: Vec<String> = Vec::new();
    let ghost mut parts_done: Seq<Seq<char>> = Seq::empty();
    let mut ps: usize = 0;
    let mut i: usize = 0;
    proof {
        lemma_split_commas_nonempty(s);
        assert(split_commas(s) =~= parts_done + seq![
            s.subrange(0, 0) + split_commas(s.skip(0)).first(),
        ] + split_commas(s.skip(0)).drop_first()) by {
            assert(s.skip(0) =~= s);
            assert(s.subrange(0, 0) + split_commas(s).first() =~= split_commas(s).first());
        }
        assert(warnings.deep_view() =~= unrecognized_of(parts_done));
    }
    while i < v.len()
        invariant
            ps <= i <= v.len(),
            flags@ == apply_debug_entries(spec_default_flags(), parts_done),
            warnings.deep_view() == unrecognized_of(parts_done),
            split_commas(s) == parts_done + seq![
                s.subrange(ps as int, i as int) + split_commas(s.skip(i as int)).first(),
            ] + split_commas(s.skip(i as int)).drop_first(),
        decreases v.len() - i,
    {
        proof {
            assert(s.skip(i as int).first() == s[i as int]);
            assert(s.skip(i as int).drop_first() =~= s.skip(i + 1));
        }
        if v[i] == ',' {
            apply_entry_range(&mut flags, &mut warnings, &v, ps, i);
            proof {
                let part = s.subrange(ps as int, i as int);
                crate::text::lemma_split_commas_nonempty(s.skip(i + 1));
                assert(split_commas(s.skip(i as int)) == seq![Seq::<char>::empty()]
                    + split_commas(s.skip(i + 1)));
                assert(part + split_commas(s.skip(i as int)).first() =~= part);
                lemma_apply_entries_push(spec_default_flags(), parts_done, part);
                lemma_unrecognized_push(parts_done, part);
                parts_done = parts_done.push(part);
                assert(split_commas(s) =~= parts_done + seq![
                    s.subrange(i + 1, i + 1) + split_commas(s.skip(i + 1)).first(),
                ] + split_commas(s.skip(i + 1)).drop_first()) by {
                    assert(s.subrange(i + 1, i + 1) + split_commas(s.skip(i + 1)).first()
                        =~= split_commas(s.skip(i + 1)).first());
                    assert(seq![Seq::<char>::empty()] + split_commas(s.skip(i + 1))
                        == split_commas(s.skip(i as int)));
                }
            }
            ps = i + 1;
        } else {
            proof {
                let rest = split_commas(s.skip(i + 1));
                assert(split_commas(s.skip(i as int)) == seq![
                    seq![s[i as int]] + rest.first(),
                ] + rest.drop_first());
                assert(s.subrange(ps as int, i as int) + split_commas(
                    s.skip(i as int),
                ).first() =~= s.subrange(ps as int, i + 1) + rest.first());
            }
        }
        i = i + 1;
    }
    apply_entry_range(&mut flags, &mut warnings, &v, ps, v.len());
    proof {
        let part = s.subrange(ps as int, s.len() as int);
        assert(s.skip(s.len() as int) =~= Seq::<char>::empty());
        assert(split_commas(s.skip(s.len() as int)) == seq![Seq::<char>::empty()]);
        assert(part + split_commas(s.skip(s.len() as int)).first() =~= part);
        lemma_apply_entries_push(spec_default_flags(), parts_done, part);
        lemma_unrecognized_push(parts_done, part);
        assert(parts_done + seq![part] + split_commas(s.skip(s.len() as int)).drop_first()
            =~= parts_done.push(part));
        assert(split_commas(s) == parts_done.push(part));
    }
    (flags, warnings)
}

/// Applies one entry, `v[start..end]`, to the flags, recording a warning for
/// a `key=value` entry whose key nothing recognizes.
fn apply_entry_range(
    flags: &mut CliDebugFlags,
    warnings: &mut Vec<String>,
    v: &Vec<char>,
    start: usize,
    end: usize,
)
    requires
        start <= end <= v.len(),
    ensures
        final(flags)@ == apply_debug_entry(old(flags)@, v@.subrange(start as int, end as int)),
        final(warnings).deep_view() == if entry_unrecognized(
            v@.subrange(start as int, end as int),
        ) {
            old(warnings).deep_view().push(v@.subrange(start as int, end as int))
        } else {
            old(warnings).deep_view()
        },
{
    let ghost part = v@.subrange(start as int, end as int);
    match find_eq(v, start, end) {
        None => {
            proof {
                assert(forall|k: int| 0 <= k < part.len() ==> #[trigger] part[k] != '=');
                lemma_split_once_eq_none(part);
            }
        },
        Some(j) => {
            proof {
                assert(part[j - start] == '=');
                assert(forall|k: int| 0 <= k < j - start ==> #[trigger] part[k] != '=');
                lemma_split_once_eq_at(part, j - start);
                assert(part.take(j - start) =~= v@.subrange(start as int, j as int));
                assert(part.skip(j - start + 1) =~= v@.subrange(j + 1, end as int));
            }
            if range_eq_str(v, start, j, "heightmap") && range_eq_str(v, j + 1, end, "zero") {
                flags.zero_heightmap = true;
            } else if range_eq_str(v, start, j, "texture") {
                flags.texture_mode = Some(string_of_range(v, j + 1, end));
            } else if range_eq_str(v, start, j, "startpt") {
                let val = string_of_range(v, j + 1, end);
                flags.start_point_color = parse_color(val.as_str());
            } else if range_eq_str(v, start, j, "endpt") {
                let val = string_of_range(v, j + 1, end);
                flags.end_point_color = parse_color(val.as_str());
            } else {
                warnings.push(string_of_range(v, start, end));
                proof {
                    assert(warnings.deep_view() =~= old(warnings).deep_view().push(part));
                }
            }
        },
    }
}

} // verus!
