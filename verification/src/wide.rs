//! Strings of UTF-16 code units, and lists of them.

use crate::bytes::native_value;
use crate::ty::{PropertyType, PropertyTypeMod};
use crate::value::{spec_record, InfoPropertyValue};
use vstd::prelude::*;
use vstd::slice::slice_subrange;

verus! {

/// A run of code units that no NUL ends.
#[derive(Clone, Copy, Debug, PartialEq, Eq, Hash, Structural)]
pub struct MissingNulTerminator {}

/// A string of code units, as they are: a NUL is a unit like any other.
#[derive(Clone, Debug, PartialEq, Eq, PartialOrd, Ord, Hash)]
pub struct WideString {
    /// The code units.
    pub units: Vec<u16>,
}

/// A string of code units that a NUL ended. It holds the units before the
/// NUL, none of which is a NUL.
#[derive(Clone, Debug, PartialEq, Eq, PartialOrd, Ord, Hash)]
pub struct WideCString {
    units: Vec<u16>,
}

impl DeepView for WideString {
    type V = Seq<u16>;

    open spec fn deep_view(&self) -> Seq<u16> {
        self.units@
    }
}

impl View for WideCString {
    type V = Seq<u16>;

    closed spec fn view(&self) -> Seq<u16> {
        self.units@
    }
}

impl DeepView for WideCString {
    type V = Seq<u16>;

    open spec fn deep_view(&self) -> Seq<u16> {
        self@
    }
}

/// The text that the code units `units` spell as UTF-16, with the
/// replacement character U+FFFD in place of each surrogate that is not half
/// of a pair.
pub uninterp spec fn utf16_lossy(units: Seq<u16>) -> Seq<char>;

/// Whether `s` has a NUL at `i` and none before it.
pub open spec fn is_first_nul(s: Seq<u16>, i: int) -> bool {
    0 <= i < s.len() && s[i] == 0 && forall|j: int| 0 <= j < i ==> s[j] != 0
}

/// Whether `s` has a NUL.
pub open spec fn has_nul(s: Seq<u16>) -> bool {
    exists|i: int| 0 <= i < s.len() && s[i] == 0
}

/// Where the first NUL of `s` is, if it has one.
pub open spec fn first_nul(s: Seq<u16>) -> int {
    choose|i: int| is_first_nul(s, i)
}

/// Whether `s` is one NUL-terminated string: its last unit is a NUL, and
/// no other is.
pub open spec fn is_c_string(s: Seq<u16>) -> bool {
    s.len() > 0 && is_first_nul(s, s.len() - 1)
}

/// The first NUL is where a NUL with none before it is.
pub proof fn lemma_first_nul(s: Seq<u16>, i: int)
    requires
        is_first_nul(s, i),
    ensures
        has_nul(s),
        first_nul(s) == i,
{
    let k = first_nul(s);
    assert(is_first_nul(s, k));
    if k < i {
        assert(s[k] != 0);
    }
    if i < k {
        assert(s[i] != 0);
    }
}

/// A string with a NUL has a first one.
pub proof fn lemma_has_first_nul(s: Seq<u16>)
    requires
        has_nul(s),
    ensures
        is_first_nul(s, first_nul(s)),
    decreases s.len(),
{
    let i = choose|i: int| 0 <= i < s.len() && s[i] == 0;
    if exists|j: int| 0 <= j < i && s[j] == 0 {
        let head = s.subrange(0, i);
        let j = choose|j: int| 0 <= j < i && s[j] == 0;
        assert(head[j] == 0);
        lemma_has_first_nul(head);
        let k = first_nul(head);
        assert(is_first_nul(head, k));
        assert(s[k] == head[k]);
        assert forall|m: int| 0 <= m < k implies s[m] != 0 by {
            assert(head[m] != 0);
        }
        assert(is_first_nul(s, k));
    } else {
        assert(is_first_nul(s, i));
    }
}

/// The runs of a string list from the unit `from` on: for each run, the
/// index of its first unit and the index after its NUL. The list ends at
/// the first run that is a NUL alone, or where no NUL is left.
pub open spec fn runs_from(u: Seq<u16>, from: int) -> Seq<(int, int)>
    decreases u.len() - from,
{
    if 0 <= from <= u.len() {
        let tail = u.subrange(from, u.len() as int);
        if has_nul(tail) && 0 < first_nul(tail) < tail.len() {
            seq![(from, from + first_nul(tail) + 1)] + runs_from(u, from + first_nul(tail) + 1)
        } else {
            Seq::empty()
        }
    } else {
        Seq::empty()
    }
}

/// Whether the string list ends as it should from the unit `from` on: with
/// a run that is a NUL alone, after runs that each end in a NUL.
pub open spec fn ends_well_from(u: Seq<u16>, from: int) -> bool
    decreases u.len() - from,
{
    if 0 <= from <= u.len() {
        let tail = u.subrange(from, u.len() as int);
        if has_nul(tail) {
            if 0 < first_nul(tail) < tail.len() {
                ends_well_from(u, from + first_nul(tail) + 1)
            } else {
                true
            }
        } else {
            false
        }
    } else {
        false
    }
}

/// The units of `data`, two bytes each in the byte order of the machine.
pub open spec fn units_of(data: Seq<u8>) -> Seq<u16> {
    Seq::new(data.len() / 2, |i: int| native_value(data.subrange(2 * i, 2 * i + 2)) as u16)
}

/// The units of a piece of bytes that begins and ends between two units
/// are the units of the bytes that lie in the piece.
pub proof fn lemma_units_of_piece(data: Seq<u8>, start: int, end: int)
    requires
        0 <= start <= end,
        2 * end <= data.len(),
    ensures
        units_of(data.subrange(2 * start, 2 * end)) == units_of(data).subrange(start, end),
{
    let piece = data.subrange(2 * start, 2 * end);
    assert(piece.len() / 2 == end - start);
    assert forall|i: int| 0 <= i < end - start implies units_of(piece)[i] == units_of(
        data,
    ).subrange(start, end)[i] by {
        assert(piece.subrange(2 * i, 2 * i + 2) =~= data.subrange(
            2 * (start + i),
            2 * (start + i) + 2,
        ));
    }
    assert(units_of(piece) =~= units_of(data).subrange(start, end));
}

/// The strings of the runs of the list `u`, each without its NUL.
pub open spec fn run_strings(u: Seq<u16>) -> Seq<Seq<u16>> {
    Seq::new(
        runs_from(u, 0).len(),
        |i: int| u.subrange(runs_from(u, 0)[i].0, runs_from(u, 0)[i].1 - 1),
    )
}

/// The strings of the list `u`, each without its NUL, and an error in the
/// last place where the list does not end as it should.
pub open spec fn list_items(u: Seq<u16>) -> Seq<Result<Seq<u16>, MissingNulTerminator>> {
    let strings = Seq::new(
        run_strings(u).len(),
        |i: int| Ok::<Seq<u16>, MissingNulTerminator>(run_strings(u)[i]),
    );
    if ends_well_from(u, 0) {
        strings
    } else {
        strings.push(Err(MissingNulTerminator {  }))
    }
}

/// The strings of the list `u`, each without its NUL, where the list ends
/// as it should.
pub open spec fn list_strings(u: Seq<u16>) -> Option<Seq<Seq<u16>>> {
    if ends_well_from(u, 0) {
        Some(run_strings(u))
    } else {
        None
    }
}

/// Every run lies within the units, holds at least one unit before its
/// NUL, and holds no other NUL.
pub proof fn lemma_runs_within(u: Seq<u16>, from: int)
    requires
        0 <= from <= u.len(),
    ensures
        forall|i: int|
            0 <= i < runs_from(u, from).len() ==> {
                let r = #[trigger] runs_from(u, from)[i];
                from <= r.0 && r.0 + 1 < r.1 <= u.len() && is_c_string(u.subrange(r.0, r.1))
            },
    decreases u.len() - from,
{
    let tail = u.subrange(from, u.len() as int);
    if has_nul(tail) && 0 < first_nul(tail) < tail.len() {
        lemma_has_first_nul(tail);
        let n = first_nul(tail);
        let next = from + n + 1;
        lemma_runs_within(u, next);
        let rest = runs_from(u, next);
        let all = runs_from(u, from);
        assert(all =~= seq![(from, next)] + rest);
        let first = u.subrange(from, next);
        assert(first[n] == tail[n]);
        assert forall|j: int| 0 <= j < n implies first[j] != 0 by {
            assert(first[j] == tail[j]);
        }
        assert(is_c_string(first));
        assert forall|i: int| 0 <= i < all.len() implies {
            let r = #[trigger] all[i];
            from <= r.0 && r.0 + 1 < r.1 <= u.len() && is_c_string(u.subrange(r.0, r.1))
        } by {
            if i > 0 {
                assert(all[i] == rest[i - 1]);
            }
        }
    }
}

/// The units of the strings `strings`, each followed by a NUL.
pub open spec fn runs_of(strings: Seq<Seq<u16>>) -> Seq<u16>
    decreases strings.len(),
{
    if strings.len() == 0 {
        Seq::empty()
    } else {
        strings[0] + seq![0u16] + runs_of(strings.drop_first())
    }
}

/// Whether each of `strings` can stand in a list: whether it holds a unit
/// and no NUL.
pub open spec fn can_be_listed(strings: Seq<Seq<u16>>) -> bool {
    forall|i: int| 0 <= i < strings.len() ==> (#[trigger] strings[i]).len() > 0 && !has_nul(strings[i])
}

/// Strings that are written one after the other, each with its NUL, are
/// the runs of what is written, whatever follows them; and the list ends
/// as it should where a NUL follows them, and does not where no NUL does.
pub proof fn lemma_runs_of_strings(u: Seq<u16>, from: int, strings: Seq<Seq<u16>>, rest: Seq<u16>)
    requires
        0 <= from <= u.len(),
        u.subrange(from, u.len() as int) == runs_of(strings) + rest,
        can_be_listed(strings),
        (rest.len() > 0 && rest[0] == 0) || !has_nul(rest),
    ensures
        runs_from(u, from).len() == strings.len(),
        forall|i: int|
            0 <= i < strings.len() ==> {
                let r = #[trigger] runs_from(u, from)[i];
                from <= r.0 < r.1 <= u.len() && u.subrange(r.0, r.1 - 1) == strings[i]
            },
        ends_well_from(u, from) == (rest.len() > 0 && rest[0] == 0),
    decreases strings.len(),
{
    let tail = u.subrange(from, u.len() as int);
    if strings.len() == 0 {
        assert(tail =~= rest);
        if rest.len() > 0 && rest[0] == 0 {
            assert(is_first_nul(tail, 0));
            lemma_first_nul(tail, 0);
        }
    } else {
        let first = strings[0];
        let others = strings.drop_first();
        let n = first.len() as int;
        assert(tail[n] == 0u16);
        assert forall|j: int| 0 <= j < n implies tail[j] != 0 by {
            assert(tail[j] == first[j]);
        }
        assert(is_first_nul(tail, n));
        lemma_first_nul(tail, n);
        let next = from + n + 1;
        assert(u.subrange(next, u.len() as int) =~= runs_of(others) + rest) by {
            assert(u.subrange(next, u.len() as int) =~= tail.subrange(n + 1, tail.len() as int));
        }
        assert(can_be_listed(others)) by {
            assert forall|i: int| 0 <= i < others.len() implies (#[trigger] others[i]).len() > 0
                && !has_nul(others[i]) by {
                assert(others[i] == strings[i + 1]);
            }
        }
        lemma_runs_of_strings(u, next, others, rest);
        let all = runs_from(u, from);
        let later = runs_from(u, next);
        assert(all =~= seq![(from, next)] + later);
        assert(u.subrange(from, next - 1) =~= first) by {
            assert forall|j: int| 0 <= j < n implies u.subrange(from, next - 1)[j] == first[j] by {
                assert(u[from + j] == tail[j]);
            }
        }
        assert forall|i: int| 0 <= i < strings.len() implies {
            let r = #[trigger] all[i];
            from <= r.0 < r.1 <= u.len() && u.subrange(r.0, r.1 - 1) == strings[i]
        } by {
            if i > 0 {
                assert(all[i] == later[i - 1]);
                assert(strings[i] == others[i - 1]);
            }
        }
    }
}

/// A list that is written as its strings, each with its NUL, and a NUL
/// after the last of them reads as those strings, in their order.
pub proof fn lemma_list_round_trip(strings: Seq<Seq<u16>>)
    requires
        can_be_listed(strings),
    ensures
        list_strings(runs_of(strings) + seq![0u16]) == Some(strings),
        list_items(runs_of(strings) + seq![0u16]) == Seq::new(
            strings.len(),
            |i: int| Ok::<Seq<u16>, MissingNulTerminator>(strings[i]),
        ),
{
    let u = runs_of(strings) + seq![0u16];
    assert(u.subrange(0, u.len() as int) =~= u);
    lemma_runs_of_strings(u, 0, strings, seq![0u16]);
    assert(list_strings(u).unwrap() =~= strings);
    assert(list_items(u) =~= Seq::new(
        strings.len(),
        |i: int| Ok::<Seq<u16>, MissingNulTerminator>(strings[i]),
    ));
}

/// A list whose last run no NUL ends reads as the strings before that run,
/// in their order, and an error after them.
pub proof fn lemma_list_unterminated(strings: Seq<Seq<u16>>, rest: Seq<u16>)
    requires
        can_be_listed(strings),
        !has_nul(rest),
    ensures
        list_strings(runs_of(strings) + rest) is None,
        list_items(runs_of(strings) + rest) == Seq::new(
            strings.len(),
            |i: int| Ok::<Seq<u16>, MissingNulTerminator>(strings[i]),
        ).push(Err(MissingNulTerminator {  })),
{
    let u = runs_of(strings) + rest;
    assert(u.subrange(0, u.len() as int) =~= u);
    lemma_runs_of_strings(u, 0, strings, rest);
    assert(list_items(u) =~= Seq::new(
        strings.len(),
        |i: int| Ok::<Seq<u16>, MissingNulTerminator>(strings[i]),
    ).push(Err(MissingNulTerminator {  })));
}

/// `widestring::U16CStr::from_slice_truncate`, and the length of what it
/// gives with its NUL: one more than the index of the first NUL of
/// `units`, or nothing where `units` has no NUL.
#[verifier::external_body]
fn nul_terminated_len(units: &[u16]) -> (r: Option<usize>)
    ensures
        match r {
            Some(n) => n >= 1 && is_first_nul(units@, n - 1),
            None => !has_nul(units@),
        },
{
    match widestring::U16CStr::from_slice_truncate(units) {
        Ok(s) => Some(s.as_slice_with_nul().len()),
        Err(_) => None,
    }
}

/// `widestring::U16CStr::from_slice`: whether it accepts `units`, which it
/// does where the last unit is a NUL and no other is.
#[verifier::external_body]
fn is_nul_terminated(units: &[u16]) -> (r: bool)
    ensures
        r == is_c_string(units@),
{
    widestring::U16CStr::from_slice(units).is_ok()
}

/// `widestring::U16Str::to_string_lossy`, on the string that
/// `widestring::U16Str::from_slice` makes of `units`.
#[verifier::external_body]
fn utf16_to_string_lossy(units: &[u16]) -> (r: String)
    ensures
        r@ == utf16_lossy(units@),
{
    widestring::U16Str::from_slice(units).to_string_lossy()
}

/// Whether `runs` are the runs of the list `u`: each where the list has
/// it, within the units, and a NUL-terminated string of at least one unit
/// before its NUL.
pub open spec fn are_runs_of(runs: Seq<(usize, usize)>, u: Seq<u16>) -> bool {
    &&& runs.len() == runs_from(u, 0).len()
    &&& forall|i: int|
        0 <= i < runs.len() ==> {
            let r = #[trigger] runs[i];
            &&& r.0 == runs_from(u, 0)[i].0
            &&& r.1 == runs_from(u, 0)[i].1
            &&& r.0 + 1 < r.1 <= u.len()
            &&& is_c_string(u.subrange(r.0 as int, r.1 as int))
        }
}

/// The runs of the string list `units` and whether the list ends as it
/// should.
pub fn split_list(units: &[u16]) -> (r: (Vec<(usize, usize)>, bool))
    ensures
        are_runs_of(r.0@, units@),
        r.1 == ends_well_from(units@, 0),
{
    let mut out: Vec<(usize, usize)> = Vec::new();
    let mut pos: usize = 0;
    let len: usize = units.len();
    let ghost mut done: Seq<(int, int)> = Seq::empty();
    proof {
        lemma_runs_within(units@, 0);
        assert(done + runs_from(units@, 0) =~= runs_from(units@, 0));
    }
    loop
        invariant
            len == units@.len(),
            pos <= len,
            out@.len() == done.len(),
            forall|i: int|
                0 <= i < done.len() ==> (#[trigger] out@[i]).0 == done[i].0 && out@[i].1
                    == done[i].1,
            runs_from(units@, 0) == done + runs_from(units@, pos as int),
            ends_well_from(units@, 0) == ends_well_from(units@, pos as int),
            forall|i: int|
                0 <= i < runs_from(units@, 0).len() ==> {
                    let r = #[trigger] runs_from(units@, 0)[i];
                    0 <= r.0 && r.0 + 1 < r.1 <= units@.len() && is_c_string(
                        units@.subrange(r.0, r.1),
                    )
                },
        decreases len - pos,
    {
        let tail = slice_subrange(units, pos, len);
        match nul_terminated_len(tail) {
            Some(n) => {
                proof {
                    lemma_first_nul(tail@, n - 1);
                }
                if n == 1 {
                    assert(done + runs_from(units@, pos as int) =~= done);
                    return (out, true);
                }
                proof {
                    let rest = runs_from(units@, pos + n);
                    assert(runs_from(units@, pos as int) == seq![(pos as int, pos + n)] + rest);
                    assert(done + (seq![(pos as int, pos + n)] + rest) =~= done.push(
                        (pos as int, pos + n),
                    ) + rest);
                    done = done.push((pos as int, pos + n));
                }
                out.push((pos, pos + n));
                pos = pos + n;
            },
            None => {
                assert(done + runs_from(units@, pos as int) =~= done);
                return (out, false);
            },
        }
    }
}

/// The units of `s` before its first NUL, or all of them where it has
/// none.
pub open spec fn truncated(s: Seq<u16>) -> Seq<u16> {
    if has_nul(s) {
        s.subrange(0, first_nul(s))
    } else {
        s
    }
}

/// The units of `units` before the first NUL, or all of them where there
/// is none.
pub fn wide_str_from_slice_truncated(units: &[u16]) -> (r: &[u16])
    ensures
        r@ == truncated(units@),
{
    match nul_terminated_len(units) {
        Some(n) => {
            proof {
                lemma_first_nul(units@, n - 1);
            }
            slice_subrange(units, 0, n - 1)
        },
        None => units,
    }
}

impl WideString {
    /// The text that the units spell as UTF-16.
    pub open spec fn text(self) -> Seq<char> {
        utf16_lossy(self.units@)
    }

    /// The code units.
    pub fn as_slice(&self) -> (r: &[u16])
        ensures
            r@ == self.units@,
    {
        self.units.as_slice()
    }

    /// The text that the units spell as UTF-16.
    pub fn to_string_lossy(&self) -> (r: String)
        ensures
            r@ == self.text(),
    {
        utf16_to_string_lossy(self.units.as_slice())
    }
}

impl WideCString {
    /// The string of the units `units`, of which the last is a NUL and no
    /// other is.
    fn from_terminated(units: &[u16]) -> (r: WideCString)
        requires
            is_c_string(units@),
        ensures
            r@ == units@.drop_last(),
            r.wf(),
    {
        let body = slice_subrange(units, 0, units.len() - 1);
        let s = WideCString { units: vstd::slice::slice_to_vec(body) };
        assert(s@ =~= units@.drop_last());
        assert(!has_nul(s@)) by {
            if has_nul(s@) {
                let i = choose|i: int| 0 <= i < s@.len() && s@[i] == 0;
                assert(units@[i] == 0);
            }
        }
        s
    }

    /// Whether no unit is a NUL.
    pub open spec fn wf(self) -> bool {
        !has_nul(self@)
    }

    /// The text that the units spell as UTF-16.
    pub open spec fn text(self) -> Seq<char> {
        utf16_lossy(self@)
    }

    /// The string of the units `units`, where the last of them is a NUL
    /// and no other is.
    pub fn from_slice(units: &[u16]) -> (r: Option<WideCString>)
        ensures
            r is Some <==> is_c_string(units@),
            r matches Some(s) ==> s@ == units@.drop_last() && s.wf(),
    {
        if is_nul_terminated(units) {
            Some(WideCString::from_terminated(units))
        } else {
            None
        }
    }

    /// The code units before the NUL.
    pub fn as_slice(&self) -> (r: &[u16])
        ensures
            r@ == self@,
    {
        self.units.as_slice()
    }

    /// The text that the units spell as UTF-16.
    pub fn to_string_lossy(&self) -> (r: String)
        ensures
            r@ == self.text(),
    {
        utf16_to_string_lossy(self.units.as_slice())
    }
}

/// Reads the units of `data`, two bytes each, where the bytes come in
/// pairs.
pub fn read_units(data: &[u8]) -> (r: Option<Vec<u16>>)
    ensures
        r is Some <==> data@.len() % 2 == 0,
        r matches Some(u) ==> u@ == units_of(data@),
{
    let r = Vec::<u16>::get(PropertyTypeMod::Array(PropertyType::UInt16), data);
    proof {
        if data@.len() % 2 == 0 {
            assert forall|i: int| 0 <= i < data@.len() / 2 implies (#[trigger] spec_record::<u16>(
                data@,
                i,
            )) is Some by {}
            let u = r.unwrap();
            assert(u.deep_view().len() == data@.len() / 2);
            assert forall|i: int| 0 <= i < u@.len() implies u@[i] == units_of(data@)[i] by {
                assert(u.deep_view()[i] == u@[i]);
                assert(spec_record::<u16>(data@, i) == Some(u.deep_view()[i]));
                assert(data@.subrange(i * 2, (i + 1) * 2) =~= data@.subrange(2 * i, 2 * i + 2));
            }
            assert(u@ =~= units_of(data@));
        }
    }
    r
}

/// The strings of the list that `data` holds, each without its NUL, and an
/// error in the last place where the list does not end as it should; or
/// nothing where the bytes do not come in pairs.
pub open spec fn spec_string_list(data: Seq<u8>) -> Option<
    Seq<Result<Seq<u16>, MissingNulTerminator>>,
> {
    if data.len() % 2 == 0 {
        Some(list_items(units_of(data)))
    } else {
        None
    }
}

/// The strings of the runs of the list `units`, each without its NUL, and
/// whether the list ends as it should.
pub fn list_of_units(units: &[u16]) -> (r: (Vec<WideCString>, bool))
    ensures
        r.0.deep_view() == run_strings(units@),
        forall|i: int| 0 <= i < r.0@.len() ==> (#[trigger] r.0@[i]).wf(),
        r.1 == ends_well_from(units@, 0),
{
    let (runs, ends_well) = split_list(units);
    let mut out: Vec<WideCString> = Vec::new();
    let mut i: usize = 0;
    while i < runs.len()
        invariant
            i <= runs@.len(),
            out@.len() == i,
            are_runs_of(runs@, units@),
            forall|k: int|
                0 <= k < i ==> (#[trigger] out@[k])@ == run_strings(units@)[k] && out@[k].wf(),
        decreases runs@.len() - i,
    {
        let (start, end) = runs[i];
        assert(runs@[i as int].0 == start);
        let s = WideCString::from_terminated(slice_subrange(units, start, end));
        assert(s@ =~= units@.subrange(start as int, end - 1));
        out.push(s);
        i = i + 1;
    }
    proof {
        assert(out.deep_view().len() == out@.len());
        assert forall|k: int| 0 <= k < out@.len() implies out.deep_view()[k] == run_strings(
            units@,
        )[k] by {
            assert(out.deep_view()[k] == out@[k].deep_view());
        }
        assert(out.deep_view() =~= run_strings(units@));
    }
    (out, ends_well)
}

/// Walks the string list that `data` holds: NUL-terminated strings one
/// after the other, ended by an empty string. A run that no NUL ends
/// comes out as an error, and is the last item.
pub fn iter_string_list(data: &[u8]) -> (r: Option<
    Vec<Result<WideCString, MissingNulTerminator>>,
>)
    ensures
        r is Some <==> spec_string_list(data@) is Some,
        r matches Some(v) ==> v@.len() == spec_string_list(data@).unwrap().len() && forall|i: int|
            0 <= i < v@.len() ==> match #[trigger] v@[i] {
                Ok(s) => spec_string_list(data@).unwrap()[i] == Ok::<
                    Seq<u16>,
                    MissingNulTerminator,
                >(s@) && s.wf(),
                Err(_) => spec_string_list(data@).unwrap()[i] is Err,
            },
{
    let units = match read_units(data) {
        Some(units) => units,
        None => {
            return None;
        },
    };
    let (strings, ends_well) = list_of_units(units.as_slice());
    let ghost texts = run_strings(units@);
    let mut out: Vec<Result<WideCString, MissingNulTerminator>> = Vec::new();
    proof {
        assert(strings.deep_view().len() == strings@.len());
        assert forall|k: int| 0 <= k < strings@.len() implies (#[trigger] strings@[k])@
            == texts[k] by {
            assert(strings.deep_view()[k] == strings@[k].deep_view());
        }
    }
    for s in it: strings.into_iter()
        invariant
            out@.len() == it.index(),
            it.seq() == strings@,
            strings@.len() == texts.len(),
            forall|k: int| 0 <= k < strings@.len() ==> (#[trigger] strings@[k])@ == texts[k],
            forall|k: int| 0 <= k < strings@.len() ==> (#[trigger] strings@[k]).wf(),
            forall|k: int|
                0 <= k < out@.len() ==> (#[trigger] out@[k]) == Ok::<
                    WideCString,
                    MissingNulTerminator,
                >(strings@[k]),
    {
        out.push(Ok(s));
    }
    if !ends_well {
        out.push(Err(MissingNulTerminator {  }));
    }
    Some(out)
}

impl<'a> InfoPropertyValue<'a> for WideString {
    open spec fn spec_type() -> PropertyTypeMod {
        PropertyTypeMod::Plain(PropertyType::String)
    }

    open spec fn spec_supports_type(type_: PropertyTypeMod) -> bool {
        type_ matches PropertyTypeMod::Plain(ty) && ty.spec_is_string()
    }

    open spec fn spec_get(type_: PropertyTypeMod, data: Seq<u8>) -> Option<Seq<u16>> {
        if Self::spec_supports_type(type_) && data.len() % 2 == 0 {
            Some(units_of(data))
        } else {
            None
        }
    }

    proof fn lemma_get_supported(type_: PropertyTypeMod, data: Seq<u8>) {
    }

    proof fn lemma_type_supported() {
    }

    fn canonical_type() -> (r: PropertyTypeMod) {
        PropertyTypeMod::Plain(PropertyType::String)
    }

    fn supports_type(type_: PropertyTypeMod) -> (r: bool) {
        match type_ {
            PropertyTypeMod::Plain(ty) => ty.is_string(),
            _ => false,
        }
    }

    fn get_plain(type_: PropertyType, data: &'a [u8]) -> (r: Option<WideString>) {
        if type_.is_string() {
            match read_units(data) {
                Some(units) => Some(WideString { units }),
                None => None,
            }
        } else {
            None
        }
    }

    fn get(type_: PropertyTypeMod, data: &'a [u8]) -> (r: Option<WideString>) {
        match type_ {
            PropertyTypeMod::Plain(ty) => Self::get_plain(ty, data),
            _ => None,
        }
    }
}

impl<'a> InfoPropertyValue<'a> for WideCString {
    open spec fn spec_type() -> PropertyTypeMod {
        PropertyTypeMod::Plain(PropertyType::String)
    }

    open spec fn spec_supports_type(type_: PropertyTypeMod) -> bool {
        WideString::spec_supports_type(type_)
    }

    open spec fn spec_get(type_: PropertyTypeMod, data: Seq<u8>) -> Option<Seq<u16>> {
        if Self::spec_supports_type(type_) && data.len() % 2 == 0 && is_c_string(units_of(data)) {
            Some(units_of(data).drop_last())
        } else {
            None
        }
    }

    proof fn lemma_get_supported(type_: PropertyTypeMod, data: Seq<u8>) {
    }

    proof fn lemma_type_supported() {
    }

    fn canonical_type() -> (r: PropertyTypeMod) {
        PropertyTypeMod::Plain(PropertyType::String)
    }

    fn supports_type(type_: PropertyTypeMod) -> (r: bool) {
        WideString::supports_type(type_)
    }

    fn get_plain(type_: PropertyType, data: &'a [u8]) -> (r: Option<WideCString>) {
        match WideString::get_plain(type_, data) {
            Some(s) => WideCString::from_slice(s.as_slice()),
            None => None,
        }
    }

    fn get(type_: PropertyTypeMod, data: &'a [u8]) -> (r: Option<WideCString>) {
        match type_ {
            PropertyTypeMod::Plain(ty) => Self::get_plain(ty, data),
            _ => None,
        }
    }
}

impl<'a> InfoPropertyValue<'a> for String {
    open spec fn spec_type() -> PropertyTypeMod {
        PropertyTypeMod::Plain(PropertyType::String)
    }

    open spec fn spec_supports_type(type_: PropertyTypeMod) -> bool {
        WideString::spec_supports_type(type_)
    }

    open spec fn spec_get(type_: PropertyTypeMod, data: Seq<u8>) -> Option<Seq<char>> {
        match WideCString::spec_get(type_, data) {
            Some(units) => Some(utf16_lossy(units)),
            None => None,
        }
    }

    proof fn lemma_get_supported(type_: PropertyTypeMod, data: Seq<u8>) {
    }

    proof fn lemma_type_supported() {
    }

    fn canonical_type() -> (r: PropertyTypeMod) {
        PropertyTypeMod::Plain(PropertyType::String)
    }

    fn supports_type(type_: PropertyTypeMod) -> (r: bool) {
        WideString::supports_type(type_)
    }

    fn get_plain(type_: PropertyType, data: &'a [u8]) -> (r: Option<String>) {
        match WideCString::get_plain(type_, data) {
            Some(s) => Some(s.to_string_lossy()),
            None => None,
        }
    }

    fn get(type_: PropertyTypeMod, data: &'a [u8]) -> (r: Option<String>) {
        match type_ {
            PropertyTypeMod::Plain(ty) => Self::get_plain(ty, data),
            _ => None,
        }
    }
}

impl<'a> InfoPropertyValue<'a> for Vec<WideCString> {
    open spec fn spec_type() -> PropertyTypeMod {
        PropertyTypeMod::List(PropertyType::String)
    }

    open spec fn spec_supports_type(type_: PropertyTypeMod) -> bool {
        type_ matches PropertyTypeMod::List(ty) && ty.spec_is_string()
    }

    open spec fn spec_get(type_: PropertyTypeMod, data: Seq<u8>) -> Option<Seq<Seq<u16>>> {
        if Self::spec_supports_type(type_) && data.len() % 2 == 0 {
            list_strings(units_of(data))
        } else {
            None
        }
    }

    proof fn lemma_get_supported(type_: PropertyTypeMod, data: Seq<u8>) {
    }

    proof fn lemma_type_supported() {
    }

    fn canonical_type() -> (r: PropertyTypeMod) {
        PropertyTypeMod::List(PropertyType::String)
    }

    fn supports_type(type_: PropertyTypeMod) -> (r: bool) {
        match type_ {
            PropertyTypeMod::List(ty) => ty.is_string(),
            _ => false,
        }
    }

    fn get_plain(type_: PropertyType, data: &'a [u8]) -> (r: Option<Vec<WideCString>>) {
        None
    }

    fn get(type_: PropertyTypeMod, data: &'a [u8]) -> (r: Option<Vec<WideCString>>) {
        match type_ {
            PropertyTypeMod::List(ty) => {
                if !ty.is_string() {
                    return None;
                }
                match read_units(data) {
                    Some(units) => {
                        let (strings, ends_well) = list_of_units(units.as_slice());
                        if ends_well {
                            Some(strings)
                        } else {
                            None
                        }
                    },
                    None => None,
                }
            },
            _ => None,
        }
    }
}

/// The text of each of `strings`.
pub open spec fn texts_of(strings: Seq<Seq<u16>>) -> Seq<Seq<char>> {
    Seq::new(strings.len(), |i: int| utf16_lossy(strings[i]))
}

impl<'a> InfoPropertyValue<'a> for Vec<String> {
    open spec fn spec_type() -> PropertyTypeMod {
        PropertyTypeMod::List(PropertyType::String)
    }

    open spec fn spec_supports_type(type_: PropertyTypeMod) -> bool {
        Vec::<WideCString>::spec_supports_type(type_)
    }

    open spec fn spec_get(type_: PropertyTypeMod, data: Seq<u8>) -> Option<Seq<Seq<char>>> {
        match Vec::<WideCString>::spec_get(type_, data) {
            Some(strings) => Some(texts_of(strings)),
            None => None,
        }
    }

    proof fn lemma_get_supported(type_: PropertyTypeMod, data: Seq<u8>) {
    }

    proof fn lemma_type_supported() {
    }

    fn canonical_type() -> (r: PropertyTypeMod) {
        PropertyTypeMod::List(PropertyType::String)
    }

    fn supports_type(type_: PropertyTypeMod) -> (r: bool) {
        Vec::<WideCString>::supports_type(type_)
    }

    fn get_plain(type_: PropertyType, data: &'a [u8]) -> (r: Option<Vec<String>>) {
        None
    }

    fn get(type_: PropertyTypeMod, data: &'a [u8]) -> (r: Option<Vec<String>>) {
        let strings = match Vec::<WideCString>::get(type_, data) {
            Some(strings) => strings,
            None => {
                return None;
            },
        };
        let ghost units = strings.deep_view();
        let mut out: Vec<String> = Vec::new();
        let mut i: usize = 0;
        while i < strings.len()
            invariant
                i <= strings@.len(),
                out@.len() == i,
                strings.deep_view() == units,
                forall|k: int| 0 <= k < i ==> (#[trigger] out@[k])@ == utf16_lossy(units[k]),
            decreases strings@.len() - i,
        {
            assert(strings.deep_view()[i as int] == strings@[i as int].deep_view());
            out.push(strings[i].to_string_lossy());
            i = i + 1;
        }
        proof {
            assert(strings.deep_view().len() == strings@.len());
            assert(out.deep_view().len() == out@.len());
            assert forall|k: int| 0 <= k < out@.len() implies out.deep_view()[k] == texts_of(
                units,
            )[k] by {
                assert(out.deep_view()[k] == out@[k].deep_view());
            }
            assert(out.deep_view() =~= texts_of(units));
        }
        Some(out)
    }
}

} // verus!
