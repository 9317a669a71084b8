//! How a property is shown.
//!
//! Most values have a text of their own, which is made here. The text of a
//! floating-point number and the calendar date of a count of ticks are made
//! by whoever shows the property: for these, a rendering holds the bits or
//! the ticks.

use crate::guid::Guid;
use crate::key::PropertyKey;
use crate::property::{array_elements, integer_of, Property};
use crate::status::HResult;
use crate::text::{
    dump_payload, dump_text, integer_text, lemma_dump_round_trip, push_char, push_hex_bytes,
    push_integer, unhex_bytes,
};
use crate::time::FileTime;
use crate::ty::{PropertyType, PropertyTypeMod};
use crate::value::{DoubleBits, FloatBits, InfoPropertyValue};
use vstd::prelude::*;
use vstd::string::*;

verus! {

/// One value, as it is shown.
#[derive(Debug, PartialEq, Eq)]
pub enum Shown {
    /// The text of the value.
    Text(String),
    /// A single-precision number, shown as numbers of its kind are.
    Float(FloatBits),
    /// A double-precision number, shown as numbers of its kind are.
    Double(DoubleBits),
    /// A count of ticks, shown as a calendar date where it has one, and by
    /// the text of the count where it has none.
    Ticks(FileTime),
}

/// A property, as it is shown.
#[derive(Debug, PartialEq, Eq)]
pub enum Rendering {
    /// One value.
    One(Shown),
    /// The elements of a sequence, shown in square brackets with commas
    /// between them.
    Many(Vec<Shown>),
}

/// What a `Shown` holds.
pub enum ShownView {
    /// The text of the value.
    Text(Seq<char>),
    /// A single-precision number.
    Float(FloatBits),
    /// A double-precision number.
    Double(DoubleBits),
    /// A count of ticks.
    Ticks(FileTime),
}

/// What a `Rendering` holds.
pub enum RenderingView {
    /// One value.
    One(ShownView),
    /// The elements of a sequence.
    Many(Seq<ShownView>),
}

impl DeepView for Shown {
    type V = ShownView;

    open spec fn deep_view(&self) -> ShownView {
        match self {
            Shown::Text(s) => ShownView::Text(s@),
            Shown::Float(bits) => ShownView::Float(*bits),
            Shown::Double(bits) => ShownView::Double(*bits),
            Shown::Ticks(ticks) => ShownView::Ticks(*ticks),
        }
    }
}

impl DeepView for Rendering {
    type V = RenderingView;

    open spec fn deep_view(&self) -> RenderingView {
        match self {
            Rendering::One(shown) => RenderingView::One(shown.deep_view()),
            Rendering::Many(items) => RenderingView::Many(items.deep_view()),
        }
    }
}

/// The text of a truth value.
pub open spec fn bool_text(b: bool) -> Seq<char> {
    if b {
        "true"@
    } else {
        "false"@
    }
}

/// The text of a property that shows as nothing else: its type and the
/// hexadecimal digits of its bytes.
pub open spec fn hex_dump_text(type_: PropertyTypeMod, data: Seq<u8>) -> Seq<char> {
    dump_text(type_.spec_name(), data)
}

/// How a single value of the type `ty` with the bytes `data` shows as a
/// value of its type, if the bytes hold one.
pub open spec fn typed_view(ty: PropertyType, data: Seq<u8>) -> Option<ShownView> {
    let plain = PropertyTypeMod::Plain(ty);
    match ty {
        PropertyType::Boolean => match bool::spec_get(plain, data) {
            Some(b) => Some(ShownView::Text(bool_text(b))),
            None => None,
        },
        PropertyType::Float => match FloatBits::spec_get(plain, data) {
            Some(bits) => Some(ShownView::Float(bits)),
            None => None,
        },
        PropertyType::Double | PropertyType::Date => match DoubleBits::spec_get(plain, data) {
            Some(bits) => Some(ShownView::Double(bits)),
            None => None,
        },
        PropertyType::FileTime => match FileTime::spec_get(plain, data) {
            Some(ticks) => Some(ShownView::Ticks(ticks)),
            None => None,
        },
        PropertyType::Guid => match Guid::spec_get(plain, data) {
            Some(guid) => Some(ShownView::Text(guid.text())),
            None => None,
        },
        PropertyType::PropertyKey => match PropertyKey::spec_get(plain, data) {
            Some(key) => Some(ShownView::Text(key.text())),
            None => None,
        },
        PropertyType::Error | PropertyType::NtStatus => match HResult::spec_get(plain, data) {
            Some(code) => Some(ShownView::Text(code.text())),
            None => None,
        },
        PropertyType::String
        | PropertyType::StringIndirect
        | PropertyType::SecurityDescriptorString => match String::spec_get(plain, data) {
            Some(text) => Some(ShownView::Text(text)),
            None => None,
        },
        _ => match integer_of(ty, data) {
            Some(v) => Some(ShownView::Text(integer_text(v))),
            None => None,
        },
    }
}

/// How a single value of the type `ty` with the bytes `data` shows: as a
/// value of its type where the bytes hold one, and else as its type and
/// the hexadecimal digits of its bytes.
pub open spec fn shown_of(ty: PropertyType, data: Seq<u8>) -> ShownView {
    match typed_view(ty, data) {
        Some(shown) => shown,
        None => ShownView::Text(hex_dump_text(PropertyTypeMod::Plain(ty), data)),
    }
}

/// How a property of the type `type_` with the bytes `data` shows: a
/// single value as itself, an array by its elements, a list of strings by
/// its strings; and an array or a list that cannot be taken apart as its
/// type and the hexadecimal digits of its bytes.
pub open spec fn rendering_of(type_: PropertyTypeMod, data: Seq<u8>) -> RenderingView {
    match type_ {
        PropertyTypeMod::Plain(ty) => RenderingView::One(shown_of(ty, data)),
        PropertyTypeMod::Array(ty) => match array_elements(ty, data) {
            Some(elements) => RenderingView::Many(
                Seq::new(elements.len(), |i: int| shown_of(ty, elements[i])),
            ),
            None => RenderingView::One(ShownView::Text(hex_dump_text(type_, data))),
        },
        PropertyTypeMod::List(_) => match Vec::<String>::spec_get(type_, data) {
            Some(texts) => RenderingView::Many(
                Seq::new(texts.len(), |i: int| ShownView::Text(texts[i])),
            ),
            None => RenderingView::One(ShownView::Text(hex_dump_text(type_, data))),
        },
    }
}

/// The texts `items` with a comma and a space between each two.
pub open spec fn joined_text(items: Seq<Seq<char>>) -> Seq<char>
    decreases items.len(),
{
    if items.len() == 0 {
        Seq::empty()
    } else if items.len() == 1 {
        items[0]
    } else {
        joined_text(items.drop_last()) + seq![',', ' '] + items.last()
    }
}

/// The texts `items` with a comma and a space between each two, in square
/// brackets.
pub open spec fn bracketed_text(items: Seq<Seq<char>>) -> Seq<char> {
    seq!['['] + joined_text(items) + seq![']']
}

/// The text of a rendering that holds nothing but texts.
pub open spec fn rendering_text(rendering: RenderingView) -> Option<Seq<char>> {
    match rendering {
        RenderingView::One(ShownView::Text(text)) => Some(text),
        RenderingView::One(_) => None,
        RenderingView::Many(items) => if forall|i: int|
            0 <= i < items.len() ==> (#[trigger] items[i]) is Text {
            Some(bracketed_text(Seq::new(items.len(), |i: int| items[i]->Text_0)))
        } else {
            None
        },
    }
}

/// A property that shows as its type and the hexadecimal digits of its
/// bytes gives its bytes back: they can be read out of the text, whatever
/// the type and the bytes are.
pub proof fn lemma_hex_dump_round_trip(type_: PropertyTypeMod, data: Seq<u8>)
    ensures
        unhex_bytes(dump_payload(hex_dump_text(type_, data))) == Some(data),
{
    lemma_dump_round_trip(type_.spec_name(), data);
}

/// The texts `items` with a comma and a space between each two, in square
/// brackets.
pub fn bracketed(items: &Vec<String>) -> (r: String)
    ensures
        r@ == bracketed_text(items.deep_view()),
{
    let mut s = String::new();
    push_char(&mut s, '[');
    let ghost texts = items.deep_view();
    let mut i: usize = 0;
    assert(texts.subrange(0, 0) =~= Seq::<Seq<char>>::empty());
    while i < items.len()
        invariant
            i <= items@.len(),
            texts == items.deep_view(),
            texts.len() == items@.len(),
            s@ == seq!['['] + joined_text(texts.subrange(0, i as int)),
        decreases items@.len() - i,
    {
        let ghost before = texts.subrange(0, i as int);
        let ghost after = texts.subrange(0, i + 1);
        proof {
            assert(after.drop_last() =~= before);
            assert(after.last() == items@[i as int]@);
        }
        if i > 0 {
            push_char(&mut s, ',');
            push_char(&mut s, ' ');
        }
        s.append(items[i].as_str());
        proof {
            if i == 0 {
                assert(joined_text(before) =~= Seq::<char>::empty());
                assert(joined_text(after) == after[0]);
            }
            assert(s@ =~= seq!['['] + joined_text(after));
        }
        i = i + 1;
    }
    assert(texts.subrange(0, i as int) =~= texts);
    push_char(&mut s, ']');
    s
}

impl Shown {
    /// The text, where this is one.
    pub fn text(&self) -> (r: Option<&str>)
        ensures
            match r {
                Some(text) => self.deep_view() == ShownView::Text(text@),
                None => !(self.deep_view() is Text),
            },
    {
        match self {
            Shown::Text(text) => Some(text.as_str()),
            _ => None,
        }
    }
}

impl Rendering {
    /// The text of this rendering, where it holds nothing but texts: the
    /// one text, or the texts of the elements in square brackets with
    /// commas between them.
    pub fn text(&self) -> (r: Option<String>)
        ensures
            r.deep_view() == rendering_text(self.deep_view()),
    {
        match self {
            Rendering::One(shown) => match shown.text() {
                Some(text) => Some(String::from_str(text)),
                None => None,
            },
            Rendering::Many(items) => {
                let ghost views = items.deep_view();
                let mut texts: Vec<String> = Vec::new();
                let mut i: usize = 0;
                while i < items.len()
                    invariant
                        i <= items@.len(),
                        views == items.deep_view(),
                        views.len() == items@.len(),
                        self.deep_view() == RenderingView::Many(views),
                        texts@.len() == i,
                        forall|k: int|
                            0 <= k < i ==> views[k] == ShownView::Text((#[trigger] texts@[k])@),
                    decreases items@.len() - i,
                {
                    assert(views[i as int] == items@[i as int].deep_view());
                    match items[i].text() {
                        Some(text) => {
                            texts.push(String::from_str(text));
                        },
                        None => {
                            assert(!(views[i as int] is Text));
                            return None;
                        },
                    }
                    i = i + 1;
                }
                proof {
                    let want = Seq::new(views.len(), |i: int| views[i]->Text_0);
                    assert(texts.deep_view().len() == texts@.len());
                    assert forall|k: int| 0 <= k < want.len() implies texts.deep_view()[k]
                        == want[k] by {
                        assert(texts.deep_view()[k] == texts@[k].deep_view());
                    }
                    assert(texts.deep_view() =~= want);
                    assert forall|k: int| 0 <= k < views.len() implies (#[trigger] views[k])
                        is Text by {
                        assert(views[k] == ShownView::Text(texts@[k]@));
                    }
                    assert(rendering_text(self.deep_view()) == Some(bracketed_text(want)));
                }
                Some(bracketed(&texts))
            },
        }
    }
}

impl<'a> Property<'a> {
    /// The text of this property as its type and the hexadecimal digits of
    /// its bytes, with a colon between them and angle brackets around
    /// them.
    pub fn hex_dump(&self) -> (r: String)
        ensures
            r@ == hex_dump_text(self.type_, self.data@),
    {
        let mut s = String::new();
        push_char(&mut s, '<');
        let name = self.type_.to_string();
        s.append(name.as_str());
        push_char(&mut s, ':');
        push_hex_bytes(&mut s, self.data());
        push_char(&mut s, '>');
        assert(s@ =~= hex_dump_text(self.type_, self.data@));
        s
    }

    /// How this property shows as a value of its type, if it is a single
    /// value and its bytes hold one.
    pub fn with_value(&self) -> (r: Option<Shown>)
        ensures
            r.deep_view() == match self.type_ {
                PropertyTypeMod::Plain(ty) => typed_view(ty, self.data@),
                _ => None,
            },
    {
        match self.type_ {
            PropertyTypeMod::Plain(ty) => match ty {
                PropertyType::Boolean => match self.get::<bool>() {
                    Some(v) => Some(
                        Shown::Text(
                            String::from_str(
                                if v {
                                    "true"
                                } else {
                                    "false"
                                },
                            ),
                        ),
                    ),
                    None => None,
                },
                PropertyType::Float => match self.get::<FloatBits>() {
                    Some(v) => Some(Shown::Float(v)),
                    None => None,
                },
                PropertyType::Double | PropertyType::Date => match self.get::<DoubleBits>() {
                    Some(v) => Some(Shown::Double(v)),
                    None => None,
                },
                PropertyType::FileTime => match self.get::<FileTime>() {
                    Some(v) => Some(Shown::Ticks(v)),
                    None => None,
                },
                PropertyType::Guid => match self.get::<Guid>() {
                    Some(v) => Some(Shown::Text(v.to_string())),
                    None => None,
                },
                PropertyType::PropertyKey => match self.get::<PropertyKey>() {
                    Some(v) => Some(Shown::Text(v.to_string())),
                    None => None,
                },
                PropertyType::Error | PropertyType::NtStatus => match self.get::<HResult>() {
                    Some(v) => Some(Shown::Text(v.to_string())),
                    None => None,
                },
                PropertyType::String
                | PropertyType::StringIndirect
                | PropertyType::SecurityDescriptorString => match self.get::<String>() {
                    Some(v) => Some(Shown::Text(v)),
                    None => None,
                },
                _ => match self.to_i128() {
                    Some(v) => {
                        let mut s = String::new();
                        push_integer(&mut s, v);
                        assert(s@ =~= integer_text(v as int));
                        Some(Shown::Text(s))
                    },
                    None => None,
                },
            },
            _ => None,
        }
    }

    /// How this property shows where it is a single value: as a value of
    /// its type, or as its type and the hexadecimal digits of its bytes.
    fn shown(&self, ty: PropertyType) -> (r: Shown)
        requires
            self.type_ == PropertyTypeMod::Plain(ty),
        ensures
            r.deep_view() == shown_of(ty, self.data@),
    {
        match self.with_value() {
            Some(shown) => shown,
            None => Shown::Text(self.hex_dump()),
        }
    }

    /// How this property shows. Every property shows as something.
    pub fn render(&self) -> (r: Rendering)
        ensures
            r.deep_view() == rendering_of(self.type_, self.data@),
    {
        match self.type_ {
            PropertyTypeMod::Plain(ty) => Rendering::One(self.shown(ty)),
            PropertyTypeMod::Array(ty) => match self.values() {
                Some(values) => {
                    let ghost elements = array_elements(ty, self.data@).unwrap();
                    let mut out: Vec<Shown> = Vec::new();
                    let mut i: usize = 0;
                    while i < values.len()
                        invariant
                            i <= values@.len(),
                            out@.len() == i,
                            values@.len() == elements.len(),
                            forall|k: int|
                                0 <= k < values@.len() ==> (#[trigger] values@[k]).type_
                                    == PropertyTypeMod::Plain(ty) && values@[k].data@
                                    == elements[k],
                            forall|k: int|
                                0 <= k < i ==> (#[trigger] out@[k]).deep_view() == shown_of(
                                    ty,
                                    elements[k],
                                ),
                        decreases values@.len() - i,
                    {
                        out.push(values[i].shown(ty));
                        i = i + 1;
                    }
                    proof {
                        let want = Seq::new(elements.len(), |i: int| shown_of(ty, elements[i]));
                        assert(out.deep_view().len() == out@.len());
                        assert forall|k: int| 0 <= k < want.len() implies out.deep_view()[k]
                            == want[k] by {
                            assert(out.deep_view()[k] == out@[k].deep_view());
                        }
                        assert(out.deep_view() =~= want);
                    }
                    Rendering::Many(out)
                },
                None => Rendering::One(Shown::Text(self.hex_dump())),
            },
            PropertyTypeMod::List(_) => match self.strings() {
                Some(strings) => {
                    let ghost texts = strings.deep_view();
                    let mut out: Vec<Shown> = Vec::new();
                    proof {
                        assert(texts.len() == strings@.len());
                        assert forall|k: int|
                            0 <= k < strings@.len() implies (#[trigger] strings@[k])@
                            == texts[k] by {
                            assert(texts[k] == strings@[k].deep_view());
                        }
                    }
                    for s in it: strings.into_iter()
                        invariant
                            out@.len() == it.index(),
                            it.seq() == strings@,
                            strings@.len() == texts.len(),
                            forall|k: int|
                                0 <= k < strings@.len() ==> (#[trigger] strings@[k])@ == texts[k],
                            forall|k: int|
                                0 <= k < out@.len() ==> (#[trigger] out@[k]).deep_view()
                                    == ShownView::Text(texts[k]),
                    {
                        out.push(Shown::Text(s));
                    }
                    proof {
                        let want = Seq::new(texts.len(), |i: int| ShownView::Text(texts[i]));
                        assert(out.deep_view().len() == out@.len());
                        assert forall|k: int| 0 <= k < want.len() implies out.deep_view()[k]
                            == want[k] by {
                            assert(out.deep_view()[k] == out@[k].deep_view());
                        }
                        assert(out.deep_view() =~= want);
                    }
                    Rendering::Many(out)
                },
                None => Rendering::One(Shown::Text(self.hex_dump())),
            },
        }
    }
}

} // verus!
