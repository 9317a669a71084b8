//! Device identifiers, which device a device information belongs to, and
//! the flags of a display.

use crate::wide::WideCString;
use vstd::prelude::*;

verus! {

/// The setup class of a device information.
#[derive(Clone, Copy, Debug, PartialEq, Eq, Hash, Structural)]
pub enum DeviceClass {
    /// The class of display adapters.
    Display,
    /// The class of monitors.
    Monitor,
    /// Any other class.
    Other,
}

/// What of a device information is held against a device's identifier.
#[derive(Clone, Copy, Debug, PartialEq, Eq, Hash, Structural)]
pub enum IdSource {
    /// The identifier of the parent device, which must begin with the
    /// device's identifier.
    Parent,
    /// The hardware identifiers and the driver, which together must be
    /// the device's identifier.
    Hardware,
    /// Nothing: the two never match.
    Nothing,
}

/// The units of `MONITOR\`, with which the identifier of a monitor begins.
pub open spec fn monitor_prefix() -> Seq<u16> {
    seq![77u16, 79u16, 78u16, 73u16, 84u16, 79u16, 82u16, 92u16]
}

/// The identifier that hardware identifiers and a driver make: each
/// hardware identifier followed by a backslash, then the driver.
pub open spec fn hardware_id_text(ids: Seq<Seq<u16>>, driver: Seq<u16>) -> Seq<u16>
    decreases ids.len(),
{
    if ids.len() == 0 {
        driver
    } else {
        ids[0] + seq![92u16] + hardware_id_text(ids.drop_first(), driver)
    }
}

/// What of a device information of the class `class` is held against the
/// identifier of a device, which is a monitor or a display adapter: for a
/// monitor's information, the parent where the device is a display adapter
/// and the hardware identifiers where it is a monitor; for a display
/// adapter's information, the hardware identifiers where the device is a
/// display adapter.
pub fn id_source(class: DeviceClass, is_monitor: bool) -> (r: IdSource)
    ensures
        r == match (class, is_monitor) {
            (DeviceClass::Monitor, false) => IdSource::Parent,
            (DeviceClass::Display, false) => IdSource::Hardware,
            (DeviceClass::Monitor, true) => IdSource::Hardware,
            _ => IdSource::Nothing,
        },
{
    match class {
        DeviceClass::Monitor => if is_monitor {
            IdSource::Hardware
        } else {
            IdSource::Parent
        },
        DeviceClass::Display => if is_monitor {
            IdSource::Nothing
        } else {
            IdSource::Hardware
        },
        DeviceClass::Other => IdSource::Nothing,
    }
}

/// Whether `units` begins with `prefix`.
pub fn starts_with(units: &[u16], prefix: &[u16]) -> (r: bool)
    ensures
        r == (prefix@.len() <= units@.len() && units@.subrange(0, prefix@.len() as int)
            == prefix@),
{
    if prefix.len() > units.len() {
        return false;
    }
    let mut i: usize = 0;
    while i < prefix.len()
        invariant
            i <= prefix@.len() <= units@.len(),
            units@.subrange(0, i as int) == prefix@.subrange(0, i as int),
        decreases prefix@.len() - i,
    {
        if units[i] != prefix[i] {
            assert(units@.subrange(0, prefix@.len() as int)[i as int] != prefix@[i as int]);
            return false;
        }
        assert(units@.subrange(0, i + 1) =~= units@.subrange(0, i as int).push(units@[i as int]));
        assert(prefix@.subrange(0, i + 1) =~= prefix@.subrange(0, i as int).push(
            prefix@[i as int],
        ));
        i = i + 1;
    }
    assert(prefix@.subrange(0, i as int) =~= prefix@);
    true
}

/// Whether `a` and `b` hold the same units.
pub fn same_units(a: &[u16], b: &[u16]) -> (r: bool)
    ensures
        r == (a@ == b@),
{
    if a.len() != b.len() {
        return false;
    }
    let r = starts_with(a, b);
    assert(a@.subrange(0, a@.len() as int) =~= a@);
    r
}

/// Whether the identifier `id` is that of a monitor: whether it begins
/// with `MONITOR\`.
pub fn is_monitor_id(id: &[u16]) -> (r: bool)
    ensures
        r == (id@.len() >= 8 && id@.subrange(0, 8) == monitor_prefix()),
{
    let prefix: [u16; 8] = [77, 79, 78, 73, 84, 79, 82, 92];
    assert(prefix@ =~= monitor_prefix());
    starts_with(id, prefix.as_slice())
}

/// The identifier that hardware identifiers and a driver make: each
/// hardware identifier followed by a backslash, then the driver.
pub fn hardware_id(ids: &Vec<WideCString>, driver: &WideCString) -> (r: Vec<u16>)
    ensures
        r@ == hardware_id_text(ids.deep_view(), driver@),
{
    let ghost texts = ids.deep_view();
    let mut out: Vec<u16> = Vec::new();
    let mut i: usize = 0;
    proof {
        assert(texts.subrange(0, texts.len() as int) =~= texts);
    }
    while i < ids.len()
        invariant
            i <= ids@.len(),
            texts == ids.deep_view(),
            texts.len() == ids@.len(),
            forall|rest: Seq<u16>|
                out@ + rest == #[trigger] hardware_id_text(texts.subrange(0, i as int), rest),
        decreases ids@.len() - i,
    {
        let ghost before = out@;
        assert(texts[i as int] == ids@[i as int]@);
        append_units(&mut out, ids[i].as_slice());
        out.push(92);
        proof {
            assert forall|rest: Seq<u16>|
                out@ + rest == #[trigger] hardware_id_text(texts.subrange(0, i + 1), rest) by {
                lemma_hardware_id_push(texts.subrange(0, i + 1), rest);
                assert(texts.subrange(0, i + 1).drop_last() =~= texts.subrange(0, i as int));
                let tail = texts[i as int] + seq![92u16] + rest;
                assert(before + tail == hardware_id_text(texts.subrange(0, i as int), tail));
                assert(out@ + rest =~= before + tail);
            }
        }
        i = i + 1;
    }
    append_units(&mut out, driver.as_slice());
    proof {
        assert(texts.subrange(0, i as int) =~= texts);
        assert(out@ == hardware_id_text(texts, driver@));
    }
    out
}

/// The identifier of hardware identifiers is that of all but the last,
/// with the last, a backslash and the driver in the driver's place.
pub proof fn lemma_hardware_id_push(ids: Seq<Seq<u16>>, driver: Seq<u16>)
    requires
        ids.len() > 0,
    ensures
        hardware_id_text(ids, driver) == hardware_id_text(
            ids.drop_last(),
            ids.last() + seq![92u16] + driver,
        ),
    decreases ids.len(),
{
    if ids.len() == 1 {
        assert(ids.drop_last() =~= Seq::<Seq<u16>>::empty());
        assert(ids.drop_first() =~= Seq::<Seq<u16>>::empty());
        assert(hardware_id_text(ids.drop_first(), driver) == driver);
        assert(ids[0] + seq![92u16] + driver == ids.last() + seq![92u16] + driver);
    } else {
        lemma_hardware_id_push(ids.drop_first(), driver);
        assert(ids.drop_first().drop_last() =~= ids.drop_last().drop_first());
        assert(ids.drop_first().last() == ids.last());
        assert(ids.drop_last()[0] == ids[0]);
    }
}

/// Appends the units of `more` to `out`.
fn append_units(out: &mut Vec<u16>, more: &[u16])
    ensures
        final(out)@ == old(out)@ + more@,
{
    let mut i: usize = 0;
    while i < more.len()
        invariant
            i <= more@.len(),
            out@ == old(out)@ + more@.subrange(0, i as int),
        decreases more@.len() - i,
    {
        out.push(more[i]);
        assert(out@ =~= old(out)@ + more@.subrange(0, i + 1));
        i = i + 1;
    }
    assert(more@.subrange(0, i as int) =~= more@);
}

/// Whether a device information belongs to the device with the identifier
/// `device_id`, by what the information holds: the parent's identifier
/// must begin with the device's, the hardware identifier must be the
/// device's.
pub fn id_matches(source: IdSource, id: &[u16], device_id: &[u16]) -> (r: bool)
    ensures
        r == match source {
            IdSource::Parent => device_id@.len() <= id@.len() && id@.subrange(
                0,
                device_id@.len() as int,
            ) == device_id@,
            IdSource::Hardware => id@ == device_id@,
            IdSource::Nothing => false,
        },
{
    match source {
        IdSource::Parent => starts_with(id, device_id),
        IdSource::Hardware => same_units(id, device_id),
        IdSource::Nothing => false,
    }
}

/// Whether the flags of a display's information say that it is the
/// primary one.
pub fn is_primary(flags: u32) -> (r: bool)
    ensures
        r == (flags % 2 == 1),
{
    assert(flags & 1 == flags % 2) by (bit_vector);
    flags & 1 != 0
}

} // verus!
