use vstd::prelude::*;
use vstd::string::*;

use crate::timing::SaveTiming;

verus! {

/// One `key = value` entry inside `#[save(...)]`. `value` is `None` where the entry
/// has no `= identifier` part.
#[derive(Debug, Clone, PartialEq, Eq)]
pub struct SaveAttributeEntry {
    pub key: String,
    pub value: Option<String>,
}

/// An attribute on the type that derives `SaveResource`: its name and, for
/// `#[save(...)]`, its entries.
#[derive(Debug, Clone, PartialEq, Eq)]
pub struct TypeAttribute {
    pub name: String,
    pub entries: Vec<SaveAttributeEntry>,
}

/// Why `#[derive(SaveResource)]` refuses a type.
#[derive(Debug, Clone, PartialEq, Eq)]
pub enum DeriveError {
    /// The type has generic parameters.
    GenericType,
    /// The type has no `#[save(...)]` attribute.
    MissingSaveAttribute,
    /// `#[save(...)]` holds a key other than `timing`.
    UnsupportedKey(String),
    /// The entry for `timing` has no `= identifier` part.
    MalformedValue,
    /// `#[save(...)]` has no `timing` entry.
    MissingTiming,
    /// `timing` is neither `auto` nor `manual`.
    UnknownTiming(String),
}

pub open spec fn timing_key() -> Seq<char> {
    "timing"@
}

pub open spec fn save_key() -> Seq<char> {
    "save"@
}

/// The timing a `timing = value` entry names, if it names one.
pub open spec fn timing_of_value(value: Seq<char>) -> Option<SaveTiming> {
    if value == "auto"@ {
        Some(SaveTiming::Auto)
    } else if value == "manual"@ {
        Some(SaveTiming::Manual)
    } else {
        None
    }
}

/// An entry that `#[save(...)]` accepts.
pub open spec fn entry_ok(e: SaveAttributeEntry) -> bool {
    e.key@ == timing_key() && e.value is Some
}

/// What parsing the entries of `#[save(...)]` gives: the first entry that is not
/// `timing = identifier` is an error; otherwise the last `timing` entry decides.
pub open spec fn timing_result(entries: Seq<SaveAttributeEntry>) -> Result<SaveTiming, DeriveError> {
    if exists|i: int| 0 <= i < entries.len() && !entry_ok(#[trigger] entries[i]) {
        let i = choose|i: int|
            0 <= i < entries.len() && !entry_ok(#[trigger] entries[i]) && forall|j: int|
                0 <= j < i ==> entry_ok(#[trigger] entries[j]);
        if entries[i].key@ != timing_key() {
            Err(DeriveError::UnsupportedKey(entries[i].key))
        } else {
            Err(DeriveError::MalformedValue)
        }
    } else if entries.len() == 0 {
        Err(DeriveError::MissingTiming)
    } else {
        let v = entries.last().value->0;
        match timing_of_value(v@) {
            Some(t) => Ok(t),
            None => Err(DeriveError::UnknownTiming(v)),
        }
    }
}

/// The compile error text for each refusal.
pub open spec fn derive_error_text(e: DeriveError) -> Seq<char> {
    match e {
        DeriveError::GenericType => "`#[derive(SaveResource)]` does not support generic types"@,
        DeriveError::MissingSaveAttribute => "missing required `#[save(timing = auto | manual)]` attribute"@,
        DeriveError::UnsupportedKey(_) => "unsupported key in `#[save(...)]`; expected `timing`"@,
        DeriveError::MalformedValue => "expected `=`"@,
        DeriveError::MissingTiming => "`#[save(...)]` is missing the required `timing` key"@,
        DeriveError::UnknownTiming(_) => "expected `timing` to be `auto` or `manual`"@,
    }
}

impl DeriveError {
    /// The compile error text of this refusal.
    pub fn message(&self) -> (t: String)
        ensures
            t@ == derive_error_text(*self),
    {
        match self {
            DeriveError::GenericType => String::from_str("`#[derive(SaveResource)]` does not support generic types"),
            DeriveError::MissingSaveAttribute => String::from_str("missing required `#[save(timing = auto | manual)]` attribute"),
            DeriveError::UnsupportedKey(_) => String::from_str("unsupported key in `#[save(...)]`; expected `timing`"),
            DeriveError::MalformedValue => String::from_str("expected `=`"),
            DeriveError::MissingTiming => String::from_str("`#[save(...)]` is missing the required `timing` key"),
            DeriveError::UnknownTiming(_) => String::from_str("expected `timing` to be `auto` or `manual`"),
        }
    }
}

/// The index of the first attribute named `save`.
pub fn find_save_attribute(attributes: &Vec<TypeAttribute>) -> (r: Option<usize>)
    ensures
        r matches Some(i) ==> i < attributes@.len() && attributes@[i as int].name@ == save_key() && forall|j: int|
            0 <= j < i ==> (#[trigger] attributes@[j]).name@ != save_key(),
        r is None ==> forall|j: int| 0 <= j < attributes@.len() ==> (#[trigger] attributes@[j]).name@ != save_key(),
{
    let save = String::from_str("save");
    let mut i: usize = 0;
    while i < attributes.len()
        invariant
            save@ == save_key(),
            i <= attributes@.len(),
            forall|j: int| 0 <= j < i ==> (#[trigger] attributes@[j]).name@ != save_key(),
        decreases attributes@.len() - i,
    {
        if attributes[i].name == save {
            return Some(i);
        }
        i = i + 1;
    }
    None
}

/// Reads the timing out of the entries of `#[save(...)]`.
pub fn parse_timing(entries: &Vec<SaveAttributeEntry>) -> (r: Result<SaveTiming, DeriveError>)
    ensures
        r == timing_result(entries@),
{
    let key = String::from_str("timing");
    let mut timing: Option<String> = None;
    let mut i: usize = 0;
    while i < entries.len()
        invariant
            key@ == timing_key(),
            i <= entries@.len(),
            forall|j: int| 0 <= j < i ==> entry_ok(#[trigger] entries@[j]),
            i == 0 ==> timing is None,
            i > 0 ==> timing == entries@[i - 1].value,
        decreases entries@.len() - i,
    {
        let e = &entries[i];
        if e.key != key {
            proof {
                assert(!entry_ok(entries@[i as int]));
                assert(forall|j: int| 0 <= j < i ==> entry_ok(#[trigger] entries@[j]));
            }
            return Err(DeriveError::UnsupportedKey(e.key.clone()));
        }
        match &e.value {
            None => {
                proof {
                    assert(!entry_ok(entries@[i as int]));
                }
                return Err(DeriveError::MalformedValue);
            },
            Some(v) => {
                timing = Some(v.clone());
            },
        }
        i = i + 1;
    }
    assert(!exists|j: int| 0 <= j < entries@.len() && !entry_ok(#[trigger] entries@[j]));
    match timing {
        None => Err(DeriveError::MissingTiming),
        Some(v) => {
            let auto = String::from_str("auto");
            let manual = String::from_str("manual");
            if v == auto {
                Ok(SaveTiming::Auto)
            } else if v == manual {
                Ok(SaveTiming::Manual)
            } else {
                Err(DeriveError::UnknownTiming(v))
            }
        },
    }
}

/// The timing that `#[derive(SaveResource)]` gives a type: generic types are
/// refused, the `#[save(...)]` attribute is required, and its first occurrence decides.
pub fn derive_timing(has_generics: bool, attributes: &Vec<TypeAttribute>) -> (r: Result<SaveTiming, DeriveError>)
    ensures
        has_generics ==> r == Err::<SaveTiming, DeriveError>(DeriveError::GenericType),
        !has_generics && (forall|j: int| 0 <= j < attributes@.len() ==> (#[trigger] attributes@[j]).name@ != save_key())
            ==> r == Err::<SaveTiming, DeriveError>(DeriveError::MissingSaveAttribute),
        forall|i: int|
            !has_generics && 0 <= i < attributes@.len() && (#[trigger] attributes@[i]).name@ == save_key() && (forall|j: int|
                0 <= j < i ==> (#[trigger] attributes@[j]).name@ != save_key()) ==> r == timing_result(attributes@[i].entries@),
{
    if has_generics {
        return Err(DeriveError::GenericType);
    }
    match find_save_attribute(attributes) {
        None => Err(DeriveError::MissingSaveAttribute),
        Some(i) => parse_timing(&attributes[i].entries),
    }
}

} // verus!
