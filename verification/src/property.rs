//! A property: a type and the bytes of a value.

use crate::bytes::{native_value, signed16, signed32, signed64, signed8};
use crate::ty::{PropertyType, PropertyTypeMod};
use crate::value::{lemma_record_bounds, spec_record, FixedValue, InfoPropertyValue};
use crate::wide::{
    are_runs_of, ends_well_from, is_c_string, lemma_runs_within, lemma_units_of_piece,
    list_items, read_units, runs_from, split_list, units_of, MissingNulTerminator, WideCString,
};
use std::borrow::Cow;
use vstd::prelude::*;
use vstd::slice::slice_subrange;

verus! {

/// The bytes of a property's value, tagged with their type.
///
/// Nothing is checked when a property is made: whether the bytes fit the
/// type shows when a value is asked for, and each time in the same way.
#[derive(Debug, PartialEq, Eq, PartialOrd, Ord, Hash)]
pub struct Property<'a> {
    /// The type of the value that `data` holds.
    pub type_: PropertyTypeMod,
    /// The bytes of the value, borrowed or owned.
    pub data: Cow<'a, [u8]>,
}

/// The elements of an array of `ty`: the bytes cut into pieces of the size
/// of `ty`; nothing where `ty` has no fixed size or the bytes leave a
/// rest.
pub open spec fn array_elements(ty: PropertyType, data: Seq<u8>) -> Option<Seq<Seq<u8>>> {
    match ty.spec_static_size() {
        Some(size) => if data.len() % (size as nat) == 0 {
            Some(
                Seq::new(
                    data.len() / (size as nat),
                    |i: int| data.subrange(i * size, (i + 1) * size),
                ),
            )
        } else {
            None
        },
        None => None,
    }
}

/// The elements of a string list: the bytes of each string with its NUL,
/// and an empty element in the last place where the list does not end as
/// it should; nothing where the bytes do not come in pairs.
pub open spec fn list_elements(data: Seq<u8>) -> Option<Seq<Seq<u8>>> {
    if data.len() % 2 == 0 {
        let u = units_of(data);
        let runs = runs_from(u, 0);
        let strings = Seq::new(runs.len(), |i: int| data.subrange(2 * runs[i].0, 2 * runs[i].1));
        if ends_well_from(u, 0) {
            Some(strings)
        } else {
            Some(strings.push(Seq::empty()))
        }
    } else {
        None
    }
}

/// The elements of a property of the type `type_`, as bytes.
pub open spec fn elements_of(type_: PropertyTypeMod, data: Seq<u8>) -> Option<Seq<Seq<u8>>> {
    match type_ {
        PropertyTypeMod::Array(ty) => array_elements(ty, data),
        PropertyTypeMod::List(_) => list_elements(data),
        PropertyTypeMod::Plain(_) => None,
    }
}

/// The integer that a single value of the type `ty` with the bytes `data`
/// is, if it is one: the truth value is 0 or 1, every integer type is
/// widened as it is, and a fixed-point number gives its 64 bits as a
/// signed integer.
pub open spec fn integer_of(ty: PropertyType, data: Seq<u8>) -> Option<int> {
    match ty {
        PropertyType::Boolean => if data.len() == 1 {
            Some(
                if data[0] != 0 {
                    1int
                } else {
                    0int
                },
            )
        } else {
            None
        },
        PropertyType::Byte => if data.len() == 1 {
            Some(data[0] as int)
        } else {
            None
        },
        PropertyType::SByte => if data.len() == 1 {
            Some(signed8(native_value(data)) as int)
        } else {
            None
        },
        PropertyType::UInt16 => if data.len() == 2 {
            Some(native_value(data) as u16 as int)
        } else {
            None
        },
        PropertyType::Int16 => if data.len() == 2 {
            Some(signed16(native_value(data)) as int)
        } else {
            None
        },
        PropertyType::UInt32 => if data.len() == 4 {
            Some(native_value(data) as u32 as int)
        } else {
            None
        },
        PropertyType::Int32 => if data.len() == 4 {
            Some(signed32(native_value(data)) as int)
        } else {
            None
        },
        PropertyType::UInt64 => if data.len() == 8 {
            Some(native_value(data) as u64 as int)
        } else {
            None
        },
        PropertyType::Int64 | PropertyType::Decimal | PropertyType::Currency => if data.len()
            == 8 {
            Some(signed64(native_value(data)) as int)
        } else {
            None
        },
        _ => None,
    }
}

/// An array of `n` values of `k` bytes each has exactly `n` elements, and
/// bytes that leave a rest when cut into pieces of `k` have none.
pub proof fn lemma_array_count(ty: PropertyType, data: Seq<u8>, n: nat)
    requires
        ty.spec_static_size() is Some,
    ensures
        data.len() == n * ty.spec_static_size().unwrap() ==> array_elements(ty, data) is Some
            && array_elements(ty, data).unwrap().len() == n,
        data.len() % (ty.spec_static_size().unwrap() as nat) != 0 ==> array_elements(ty, data)
            is None,
{
    let k = ty.spec_static_size().unwrap() as int;
    if data.len() == n * k {
        vstd::arithmetic::div_mod::lemma_fundamental_div_mod_converse(
            data.len() as int,
            k,
            n as int,
            0,
        );
    }
}

/// An array reads as values of a fixed size exactly where it has elements
/// and each element reads as such a value; the values are then those of
/// the elements, in their order.
pub proof fn lemma_array_by_elements<T: FixedValue>(ty: PropertyType, data: Seq<u8>)
    requires
        T::spec_accepts(ty),
    ensures
        Vec::<T>::spec_get(PropertyTypeMod::Array(ty), data) is Some <==> (array_elements(ty, data)
            matches Some(elements) && forall|i: int|
            0 <= i < elements.len() ==> T::spec_get(
                PropertyTypeMod::Plain(ty),
                #[trigger] elements[i],
            ) is Some),
        Vec::<T>::spec_get(PropertyTypeMod::Array(ty), data) matches Some(values)
            ==> array_elements(ty, data).unwrap().len() == values.len() && forall|i: int|
            0 <= i < values.len() ==> T::spec_get(
                PropertyTypeMod::Plain(ty),
                array_elements(ty, data).unwrap()[i],
            ) == Some(#[trigger] values[i]),
{
    T::lemma_size_of_accepted(ty);
    let size = T::spec_size() as int;
    assert(ty.spec_static_size().unwrap() as nat == size as nat);
    if data.len() % (size as nat) == 0 {
        let elements = array_elements(ty, data).unwrap();
        assert(elements.len() == data.len() / (size as nat));
        assert forall|i: int| 0 <= i < elements.len() implies #[trigger] elements[i].len()
            == size && T::spec_get(PropertyTypeMod::Plain(ty), elements[i]) == spec_record::<T>(
            data,
            i,
        ) by {
            lemma_record_bounds(data.len() as int, size, i);
            assert(elements[i] == data.subrange(i * size, (i + 1) * size));
        }
        if Vec::<T>::spec_get(PropertyTypeMod::Array(ty), data) is Some {
            assert forall|i: int| 0 <= i < elements.len() implies T::spec_get(
                PropertyTypeMod::Plain(ty),
                #[trigger] elements[i],
            ) is Some by {
                assert(spec_record::<T>(data, i) is Some);
            }
        } else {
            let i = choose|i: int|
                0 <= i < data.len() / (size as nat) && !((#[trigger] spec_record::<T>(data, i))
                    is Some);
            assert(T::spec_get(PropertyTypeMod::Plain(ty), elements[i]) is None);
        }
    }
}

/// The elements of a list of strings read as its strings: each element
/// but an empty last one as the string in its place, and the empty last
/// one, which stands for a run that no NUL ends, as nothing.
pub proof fn lemma_list_by_elements(ty: PropertyType, data: Seq<u8>)
    requires
        ty.spec_is_string(),
        data.len() % 2 == 0,
    ensures
        list_elements(data).unwrap().len() == list_items(units_of(data)).len(),
        forall|i: int|
            0 <= i < list_items(units_of(data)).len() ==> match #[trigger] list_items(
                units_of(data),
            )[i] {
                Ok(string) => WideCString::spec_get(
                    PropertyTypeMod::Plain(ty),
                    list_elements(data).unwrap()[i],
                ) == Some(string),
                Err(_) => WideCString::spec_get(
                    PropertyTypeMod::Plain(ty),
                    list_elements(data).unwrap()[i],
                ) is None,
            },
{
    let u = units_of(data);
    let runs = runs_from(u, 0);
    let elements = list_elements(data).unwrap();
    let items = list_items(u);
    lemma_runs_within(u, 0);
    assert forall|i: int| 0 <= i < items.len() implies match #[trigger] items[i] {
        Ok(string) => WideCString::spec_get(PropertyTypeMod::Plain(ty), elements[i]) == Some(
            string,
        ),
        Err(_) => WideCString::spec_get(PropertyTypeMod::Plain(ty), elements[i]) is None,
    } by {
        if i < runs.len() {
            let r = runs[i];
            lemma_units_of_piece(data, r.0, r.1);
            let run = u.subrange(r.0, r.1);
            assert(elements[i] == data.subrange(2 * r.0, 2 * r.1));
            assert(is_c_string(run));
            assert(run.drop_last() =~= u.subrange(r.0, r.1 - 1));
            assert(items[i] == Ok::<Seq<u16>, MissingNulTerminator>(u.subrange(r.0, r.1 - 1)));
        } else {
            assert(elements[i] =~= Seq::<u8>::empty());
            assert(units_of(elements[i]) =~= Seq::<u16>::empty());
        }
    }
}

/// Cuts the bytes of an array of `ty` into its elements, each a single
/// value of `ty` that borrows its bytes from `data`.
pub fn iter_array<'s>(ty: PropertyType, data: &'s [u8]) -> (r: Option<Vec<Property<'s>>>)
    ensures
        r is Some <==> array_elements(ty, data@) is Some,
        r matches Some(v) ==> v@.len() == array_elements(ty, data@).unwrap().len()
            && forall|i: int|
            0 <= i < v@.len() ==> (#[trigger] v@[i]).type_ == PropertyTypeMod::Plain(ty)
                && v@[i].data@ == array_elements(ty, data@).unwrap()[i] && v@[i].data is Borrowed,
{
    let size: usize = match ty.static_size() {
        Some(size) => size,
        None => {
            return None;
        },
    };
    if data.len() % size != 0 {
        return None;
    }
    let count: usize = data.len() / size;
    let mut out: Vec<Property<'s>> = Vec::new();
    let mut i: usize = 0;
    while i < count
        invariant
            ty.spec_static_size() == Some(size),
            1 <= size <= 20,
            count == data@.len() / (size as nat),
            data@.len() % (size as nat) == 0,
            data@.len() <= usize::MAX,
            i <= count,
            out@.len() == i,
            forall|k: int|
                0 <= k < i ==> (#[trigger] out@[k]).type_ == PropertyTypeMod::Plain(ty)
                    && out@[k].data@ == data@.subrange(k * size, (k + 1) * size)
                    && out@[k].data is Borrowed,
        decreases count - i,
    {
        proof {
            lemma_record_bounds(data@.len() as int, size as int, i as int);
        }
        let piece = slice_subrange(data, i * size, i * size + size);
        out.push(Property { type_: PropertyTypeMod::Plain(ty), data: Cow::Borrowed(piece) });
        i = i + 1;
    }
    Some(out)
}

impl<'a> Clone for Property<'a> {
    /// A property of the same type with the same bytes, borrowed where
    /// this one borrows them and copied where it owns them.
    fn clone(&self) -> (r: Property<'a>)
        ensures
            r.type_ == self.type_,
            r.data@ == self.data@,
            r.data is Borrowed <==> self.data is Borrowed,
    {
        match &self.data {
            Cow::Borrowed(data) => Property { type_: self.type_, data: Cow::Borrowed(data) },
            Cow::Owned(data) => Property { type_: self.type_, data: Cow::Owned(data.clone()) },
        }
    }
}

impl<'a> Property<'a> {
    /// The elements of this property, as bytes.
    pub open spec fn spec_elements(&self) -> Option<Seq<Seq<u8>>> {
        elements_of(self.type_, self.data@)
    }

    /// The base type of an element.
    pub open spec fn element_type(&self) -> PropertyTypeMod {
        PropertyTypeMod::Plain(self.type_.spec_base_type())
    }

    /// The integer that this property is, if it is one.
    pub open spec fn spec_to_i128(&self) -> Option<int> {
        match self.type_ {
            PropertyTypeMod::Plain(ty) => integer_of(ty, self.data@),
            _ => None,
        }
    }

    /// A property of the type `type_` with the bytes `data`.
    pub fn new(type_: PropertyTypeMod, data: Cow<'a, [u8]>) -> (r: Property<'a>)
        ensures
            r.type_ == type_,
            r.data == data,
    {
        Property { type_, data }
    }

    /// The bytes of the value.
    pub fn data(&self) -> (r: &[u8])
        ensures
            r@ == self.data@,
    {
        match &self.data {
            Cow::Borrowed(data) => data,
            Cow::Owned(data) => data.as_slice(),
        }
    }

    /// Reads the value of this property as a `T`.
    pub fn get<'s, T: InfoPropertyValue<'s>>(&'s self) -> (r: Option<T>)
        ensures
            r.deep_view() == T::spec_get(self.type_, self.data@),
    {
        T::get(self.type_, self.data())
    }

    /// Reads the value of this property as a `T`, where the property
    /// borrows its bytes. A property that owns its bytes gives nothing,
    /// whatever they hold.
    pub fn get_ref<T: InfoPropertyValue<'a>>(&self) -> (r: Option<T>)
        ensures
            r.deep_view() == if self.data is Borrowed {
                T::spec_get(self.type_, self.data@)
            } else {
                None
            },
    {
        match &self.data {
            Cow::Borrowed(data) => T::get(self.type_, data),
            Cow::Owned(_) => None,
        }
    }

    /// The bytes of an array of bytes: borrowed for as long as this
    /// property borrows them, and copied where it owns them.
    pub fn borrow(&self) -> (r: Option<Cow<'a, [u8]>>)
        ensures
            r is Some <==> self.type_ == PropertyTypeMod::Array(PropertyType::Byte),
            r matches Some(bytes) ==> bytes@ == self.data@ && (bytes is Borrowed
                <==> self.data is Borrowed),
    {
        match &self.data {
            Cow::Borrowed(data) => match <&[u8]>::get(self.type_, data) {
                Some(bytes) => Some(Cow::Borrowed(bytes)),
                None => None,
            },
            Cow::Owned(data) => match <&[u8]>::get(self.type_, data.as_slice()) {
                Some(bytes) => Some(Cow::Owned(vstd::slice::slice_to_vec(bytes))),
                None => None,
            },
        }
    }

    /// The elements of an array or a list, each a single value of the base
    /// type that borrows its bytes from this property. A single value has
    /// no elements, nor has an array whose bytes leave a rest.
    pub fn values<'s>(&'s self) -> (r: Option<Vec<Property<'s>>>)
        ensures
            r is Some <==> self.spec_elements() is Some,
            r matches Some(v) ==> v@.len() == self.spec_elements().unwrap().len() && forall|i: int|
                0 <= i < v@.len() ==> (#[trigger] v@[i]).type_ == self.element_type() && v@[i].data@
                    == self.spec_elements().unwrap()[i] && v@[i].data is Borrowed,
    {
        match self.type_ {
            PropertyTypeMod::Array(ty) => iter_array(ty, self.data()),
            PropertyTypeMod::List(ty) => {
                let data = self.data();
                let units = match read_units(data) {
                    Some(units) => units,
                    None => {
                        return None;
                    },
                };
                let (runs, ends_well) = split_list(units.as_slice());
                let len: usize = data.len();
                let mut out: Vec<Property<'s>> = Vec::new();
                let mut i: usize = 0;
                while i < runs.len()
                    invariant
                        i <= runs@.len(),
                        out@.len() == i,
                        are_runs_of(runs@, units@),
                        2 * units@.len() == data@.len() == len,
                        forall|k: int|
                            0 <= k < i ==> (#[trigger] out@[k]).type_ == PropertyTypeMod::Plain(ty)
                                && out@[k].data@ == data@.subrange(
                                2 * runs@[k].0,
                                2 * runs@[k].1,
                            ) && out@[k].data is Borrowed,
                    decreases runs@.len() - i,
                {
                    let (start, end) = runs[i];
                    assert(runs@[i as int].0 == start);
                    let piece = slice_subrange(data, 2 * start, 2 * end);
                    out.push(
                        Property { type_: PropertyTypeMod::Plain(ty), data: Cow::Borrowed(piece) },
                    );
                    i = i + 1;
                }
                if !ends_well {
                    let nothing = slice_subrange(data, 0, 0);
                    assert(nothing@ =~= Seq::<u8>::empty());
                    out.push(
                        Property {
                            type_: PropertyTypeMod::Plain(ty),
                            data: Cow::Borrowed(nothing),
                        },
                    );
                }
                Some(out)
            },
            PropertyTypeMod::Plain(_) => None,
        }
    }

    /// The elements of an array or a list, each read as a `T`. An element
    /// that does not read as a `T` comes out as it is, in its place among
    /// the others.
    pub fn iter<'s, T: InfoPropertyValue<'s>>(&'s self) -> (r: Option<Vec<Result<T, Property<'s>>>>)
        ensures
            r is Some <==> self.spec_elements() is Some,
            r matches Some(v) ==> v@.len() == self.spec_elements().unwrap().len() && forall|i: int|
                0 <= i < v@.len() ==> match #[trigger] v@[i] {
                    Ok(value) => T::spec_get(self.element_type(), self.spec_elements().unwrap()[i])
                        == Some(value.deep_view()),
                    Err(element) => T::spec_get(
                        self.element_type(),
                        self.spec_elements().unwrap()[i],
                    ) is None && element.type_ == self.element_type() && element.data@
                        == self.spec_elements().unwrap()[i],
                },
    {
        let values = match self.values() {
            Some(values) => values,
            None => {
                return None;
            },
        };
        let ghost elements = self.spec_elements().unwrap();
        let ghost element_type = self.element_type();
        let mut out: Vec<Result<T, Property<'s>>> = Vec::new();
        let mut i: usize = 0;
        while i < values.len()
            invariant
                i <= values@.len(),
                out@.len() == i,
                values@.len() == elements.len(),
                forall|k: int|
                    0 <= k < values@.len() ==> (#[trigger] values@[k]).type_ == element_type
                        && values@[k].data@ == elements[k] && values@[k].data is Borrowed,
                forall|k: int|
                    0 <= k < i ==> match #[trigger] out@[k] {
                        Ok(value) => T::spec_get(element_type, elements[k]) == Some(
                            value.deep_view(),
                        ),
                        Err(element) => T::spec_get(element_type, elements[k]) is None
                            && element.type_ == element_type && element.data@ == elements[k],
                    },
            decreases values@.len() - i,
        {
            let element = &values[i];
            let bytes: &'s [u8] = match element.data {
                Cow::Borrowed(bytes) => bytes,
                Cow::Owned(_) => {
                    // The elements borrow their bytes: there is no such element.
                    assert(false);
                    return None;
                },
            };
            let ty = element.type_;
            match T::get(ty, bytes) {
                Some(value) => {
                    out.push(Ok(value));
                },
                None => {
                    out.push(Err(Property { type_: ty, data: Cow::Borrowed(bytes) }));
                },
            }
            i = i + 1;
        }
        Some(out)
    }

    /// The strings of a list of strings, each without its NUL; nothing
    /// where the list does not end as it should.
    pub fn win32_string_list(&self) -> (r: Option<Vec<WideCString>>)
        ensures
            r.deep_view() == Vec::<WideCString>::spec_get(self.type_, self.data@),
    {
        self.get::<Vec<WideCString>>()
    }

    /// The text of each string of a list of strings; nothing where the
    /// list does not end as it should.
    pub fn strings(&self) -> (r: Option<Vec<String>>)
        ensures
            r.deep_view() == Vec::<String>::spec_get(self.type_, self.data@),
    {
        self.get::<Vec<String>>()
    }

    /// The integer that this property is, if it is a single value of an
    /// integer type and has the bytes of one. The result lies between the
    /// least `i64` and the greatest `u64`.
    pub fn to_i128(&self) -> (r: Option<i128>)
        ensures
            r is Some <==> self.spec_to_i128() is Some,
            r matches Some(v) ==> v == self.spec_to_i128().unwrap(),
            r matches Some(v) ==> i64::MIN <= v <= u64::MAX,
            r is Some ==> self.type_.spec_base_type().spec_is_int(),
    {
        match self.type_.base_type() {
            PropertyType::Boolean => match self.get::<bool>() {
                Some(v) => Some(
                    if v {
                        1
                    } else {
                        0
                    },
                ),
                None => None,
            },
            PropertyType::Byte => match self.get::<u8>() {
                Some(v) => Some(v as i128),
                None => None,
            },
            PropertyType::SByte => match self.get::<i8>() {
                Some(v) => Some(v as i128),
                None => None,
            },
            PropertyType::UInt16 => match self.get::<u16>() {
                Some(v) => Some(v as i128),
                None => None,
            },
            PropertyType::Int16 => match self.get::<i16>() {
                Some(v) => Some(v as i128),
                None => None,
            },
            PropertyType::UInt32 => match self.get::<u32>() {
                Some(v) => Some(v as i128),
                None => None,
            },
            PropertyType::Int32 => match self.get::<i32>() {
                Some(v) => Some(v as i128),
                None => None,
            },
            PropertyType::UInt64 => match self.get::<u64>() {
                Some(v) => Some(v as i128),
                None => None,
            },
            PropertyType::Int64 | PropertyType::Decimal | PropertyType::Currency => match self.get::<
                i64,
            >() {
                Some(v) => Some(v as i128),
                None => None,
            },
            _ => None,
        }
    }
}

} // verus!
