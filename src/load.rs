use vstd::prelude::*;

use crate::model::{ObjectChange, ObjectId, ObjectSnapshot, StepStatus};

verus! {

/// Relies on std's String::push: it appends the one character to the string.
#[verifier::external_body]
fn push_char(s: &mut String, c: char)
    ensures
        final(s)@ == old(s)@.push(c),
{
    s.push(c)
}

/// The lowercase hexadecimal digit of a value below 16.
pub open spec fn hex_digit(d: nat) -> char {
    if d < 10 {
        ('0' as nat + d) as char
    } else {
        ('a' as nat + (d - 10)) as char
    }
}

/// The decimal digit of a value below 10.
pub open spec fn dec_digit(d: nat) -> char {
    ('0' as nat + d) as char
}

/// Two lowercase hexadecimal digits per byte, high nibble first.
pub open spec fn hex_of(bs: Seq<u8>) -> Seq<char>
    decreases bs.len(),
{
    if bs.len() == 0 {
        Seq::empty()
    } else {
        hex_of(bs.drop_last()) + seq![
            hex_digit((bs.last() / 16) as nat),
            hex_digit((bs.last() % 16) as nat),
        ]
    }
}

/// The decimal form of a natural number, without leading zeros.
pub open spec fn decimal_of(n: nat) -> Seq<char>
    decreases n,
{
    if n < 10 {
        seq![dec_digit(n)]
    } else {
        decimal_of(n / 10).push(dec_digit(n % 10))
    }
}

/// The string form of an object identifier: "0x" and 64 hexadecimal digits.
pub open spec fn object_id_text(id: ObjectId) -> Seq<char> {
    seq!['0', 'x'] + hex_of(id.bytes@)
}

/// The key of a stored document: the object's identifier and version, each in
/// string form.
#[derive(Clone, Debug, PartialEq, Eq)]
pub struct DocKey {
    pub id: String,
    pub version: String,
}

/// The store operation for one event.
#[derive(Clone, Debug, PartialEq, Eq)]
pub enum StoreOp {
    /// Delete the document under the key.
    Delete { key: DocKey },
    /// Insert or replace the document under the key; its body is the event's
    /// resolved object.
    Upsert { key: DocKey },
}

pub open spec fn key_matches(key: DocKey, change: ObjectChange) -> bool {
    key.id@ == object_id_text(change.id_spec()) && key.version@ == decimal_of(
        change.version_spec() as nat,
    )
}

/// The store operation an event calls for: a delete for a deletion, an upsert
/// for a creation or a mutation, nothing for any other change.
pub open spec fn planned(change: ObjectChange, op: Option<StoreOp>) -> bool {
    match change {
        ObjectChange::Deleted { .. } => op matches Some(StoreOp::Delete { key }) && key_matches(
            key,
            change,
        ),
        ObjectChange::Created { .. } | ObjectChange::Mutated { .. } => op matches Some(
            StoreOp::Upsert { key },
        ) && key_matches(key, change),
        _ => op is None,
    }
}

fn hex_char(d: u8) -> (c: char)
    requires
        d < 16,
    ensures
        c == hex_digit(d as nat),
{
    match d {
        0 => '0',
        1 => '1',
        2 => '2',
        3 => '3',
        4 => '4',
        5 => '5',
        6 => '6',
        7 => '7',
        8 => '8',
        9 => '9',
        10 => 'a',
        11 => 'b',
        12 => 'c',
        13 => 'd',
        14 => 'e',
        _ => 'f',
    }
}

fn dec_char(d: u64) -> (c: char)
    requires
        d < 10,
    ensures
        c == dec_digit(d as nat),
{
    match d {
        0 => '0',
        1 => '1',
        2 => '2',
        3 => '3',
        4 => '4',
        5 => '5',
        6 => '6',
        7 => '7',
        8 => '8',
        _ => '9',
    }
}

fn push_decimal(s: &mut String, n: u64)
    ensures
        final(s)@ == old(s)@ + decimal_of(n as nat),
    decreases n,
{
    if n >= 10 {
        push_decimal(s, n / 10);
    }
    push_char(s, dec_char(n % 10));
    proof {
        if n >= 10 {
            assert(old(s)@ + decimal_of(n as nat) =~= old(s)@ + decimal_of((n / 10) as nat) + seq![
                dec_digit((n % 10) as nat),
            ]);
        } else {
            assert(old(s)@ + decimal_of(n as nat) =~= old(s)@.push(dec_digit((n % 10) as nat)));
        }
    }
}

/// The decimal string form of a version.
pub fn version_text(v: u64) -> (r: String)
    ensures
        r@ == decimal_of(v as nat),
{
    let mut s = String::new();
    push_decimal(&mut s, v);
    proof {
        assert(Seq::<char>::empty() + decimal_of(v as nat) =~= decimal_of(v as nat));
    }
    s
}

/// The string form of an object identifier: "0x" and two lowercase
/// hexadecimal digits per byte.
pub fn object_id_text_of(id: &ObjectId) -> (r: String)
    ensures
        r@ == object_id_text(*id),
{
    let mut s = String::new();
    push_char(&mut s, '0');
    push_char(&mut s, 'x');
    let ghost bs = id.bytes@;
    for i in 0..32
        invariant
            bs == id.bytes@,
            bs.len() == 32,
            s@ == seq!['0', 'x'] + hex_of(bs.take(i as int)),
    {
        let b = id.bytes[i];
        push_char(&mut s, hex_char(b / 16));
        push_char(&mut s, hex_char(b % 16));
        proof {
            assert(bs.take(i + 1).drop_last() =~= bs.take(i as int));
            assert(bs.take(i + 1).last() == b);
            assert(s@ =~= seq!['0', 'x'] + hex_of(bs.take(i + 1)));
        }
    }
    proof {
        assert(bs.take(32) =~= bs);
    }
    s
}

/// The document key of a change.
pub fn doc_key(change: &ObjectChange) -> (r: DocKey)
    ensures
        key_matches(r, *change),
{
    let id = change.object_id();
    DocKey { id: object_id_text_of(&id), version: version_text(change.version()) }
}

/// The one store operation an event calls for: a deletion deletes the
/// document of its object and version; a creation or mutation inserts or
/// replaces that document with the resolved object; other changes need none.
pub fn plan_store_op<O>(item: &ObjectSnapshot<O>) -> (r: Option<StoreOp>)
    requires
        item.change is Created || item.change is Mutated ==> item.object is Some,
    ensures
        planned(item.change, r),
{
    match &item.change {
        ObjectChange::Deleted { .. } => Some(StoreOp::Delete { key: doc_key(&item.change) }),
        ObjectChange::Created { .. } | ObjectChange::Mutated { .. } => Some(
            StoreOp::Upsert { key: doc_key(&item.change) },
        ),
        _ => None,
    }
}

/// The status of an attempted store operation: success exactly when the store
/// reported no error.
pub fn store_outcome<O, E>(item: ObjectSnapshot<O>, res: Result<(), E>) -> (r: (
    StepStatus,
    ObjectSnapshot<O>,
))
    ensures
        r.1 == item,
        r.0 == (if res is Ok { StepStatus::Succeeded } else { StepStatus::Failed }),
{
    match res {
        Ok(()) => (StepStatus::Succeeded, item),
        Err(_) => (StepStatus::Failed, item),
    }
}

} // verus!
