//! Bencoded values.
use crate::octets::{copy_octets, same_octets};
#[allow(unused_imports)]
use crate::text::decimal;
use bendy::value::Value;
use vstd::prelude::*;
#[allow(unused_imports)]
use vstd::utf8::encode_utf8;

verus! {

/// A bencoded value.
#[derive(Debug)]
pub enum Bencode {
    Integer(i64),
    String(Vec<u8>),
    List(Vec<Bencode>),
    Dict(BencodeDict),
}

/// A bencoded dictionary. Of several entries under one key the last one counts.
#[derive(Debug)]
pub struct BencodeDict {
    pub entries: Vec<(Vec<u8>, Bencode)>,
}

/// What a [`Bencode`] says.
pub enum Term {
    Integer(i64),
    String(Seq<u8>),
    List(Seq<Term>),
    Dict(Map<Seq<u8>, Term>),
}

impl Bencode {
    /// What the value says.
    pub open spec fn term(self) -> Term
        decreases self,
    {
        match self {
            Bencode::Integer(n) => Term::Integer(n),
            Bencode::String(octets) => Term::String(octets@),
            Bencode::List(items) => Term::List(terms(items@)),
            Bencode::Dict(dict) => Term::Dict(bindings(dict.entries@)),
        }
    }
}

/// What the items of a list say.
pub open spec fn terms(items: Seq<Bencode>) -> Seq<Term>
    decreases items,
{
    if items.len() == 0 {
        Seq::empty()
    } else {
        terms(items.drop_last()).push(items.last().term())
    }
}

/// What the entries of a dictionary say.
pub open spec fn bindings(entries: Seq<(Vec<u8>, Bencode)>) -> Map<Seq<u8>, Term>
    decreases entries,
{
    if entries.len() == 0 {
        Map::empty()
    } else {
        bindings(entries.drop_last()).insert(entries.last().0@, entries.last().1.term())
    }
}

impl View for Bencode {
    type V = Term;

    open spec fn view(&self) -> Term {
        self.term()
    }
}

impl View for BencodeDict {
    type V = Map<Seq<u8>, Term>;

    open spec fn view(&self) -> Map<Seq<u8>, Term> {
        bindings(self.entries@)
    }
}

/// Whether lists and dictionaries stand at most `depth` deep inside each other.
pub open spec fn nested_within(term: Term, depth: nat) -> bool
    decreases depth,
{
    match term {
        Term::Integer(_) | Term::String(_) => true,
        Term::List(items) => depth > 0 && forall|i: int|
            0 <= i < items.len() ==> #[trigger] nested_within(items[i], (depth - 1) as nat),
        Term::Dict(dict) => depth > 0 && forall|key: Seq<u8>| #[trigger]
            dict.dom().contains(key) ==> nested_within(dict[key], (depth - 1) as nat),
    }
}

/// The octets that spell a byte string: its length in decimal digits, a colon and the string.
pub open spec fn string_octets(octets: Seq<u8>) -> Seq<u8> {
    encode_utf8(decimal(octets.len())) + seq![0x3au8] + octets
}

/// Whether octets stand in others from a place on.
pub open spec fn stands_at(part: Seq<u8>, whole: Seq<u8>, at: int) -> bool {
    0 <= at && at + part.len() <= whole.len() && whole.subrange(at, at + part.len()) == part
}

/// Whether octets stand somewhere in others.
pub open spec fn stands_in(part: Seq<u8>, whole: Seq<u8>) -> bool {
    exists|at: int| #[trigger] stands_at(part, whole, at)
}

/// Whether octets hold an entry of a dictionary: the key, and right behind it what is
/// written for the value.
pub open spec fn entry_stands_in(key: Seq<u8>, term: Term, whole: Seq<u8>) -> bool {
    bencode_octets(term) matches Ok(written) && stands_in(string_octets(key) + written, whole)
}

/// Whether octets hold all entries of a dictionary, where the value is one.
pub open spec fn entries_stand_in(term: Term, whole: Seq<u8>) -> bool {
    term matches Term::Dict(dict) ==> forall|key: Seq<u8>| #[trigger]
        dict.dom().contains(key) ==> entry_stands_in(key, dict[key], whole)
}

/// How deep lists and dictionaries may stand inside each other in what is written.
pub open spec fn deepest() -> nat {
    2048
}

/// A bencoded value of the `bendy` crate.
#[verifier::external_type_specification]
#[verifier::external_body]
pub struct ExValue<'a>(bendy::value::Value<'a>);

/// What a value of the `bendy` crate holds.
pub uninterp spec fn value_term(value: bendy::value::Value<'_>) -> Term;

/// What `bendy::serde::from_bytes` makes of octets: the bencoded value at their front, or
/// what is wrong with it in words.
pub uninterp spec fn bencode_of(octets: Seq<u8>) -> Result<Term, Seq<char>>;

/// The octets that `bendy::serde::to_bytes` writes for a value, or why it writes none.
pub uninterp spec fn bencode_octets(term: Term) -> Result<Seq<u8>, Seq<char>>;

/// A value of the `bendy` crate, taken apart by one level.
enum Parts<'a> {
    Integer(i64),
    String(Vec<u8>),
    List(Vec<Value<'a>>),
    Dict(Vec<(Vec<u8>, Value<'a>)>),
}

impl<'a> Parts<'a> {
    /// What the value says that the parts are of.
    spec fn term(self) -> Term {
        match self {
            Parts::Integer(n) => Term::Integer(n),
            Parts::String(octets) => Term::String(octets@),
            Parts::List(items) => Term::List(
                Seq::new(items@.len(), |i: int| value_term(items@[i])),
            ),
            Parts::Dict(entries) => Term::Dict(value_bindings(entries@)),
        }
    }
}

/// What the entries of a dictionary say.
spec fn value_bindings<'a>(entries: Seq<(Vec<u8>, Value<'a>)>) -> Map<Seq<u8>, Term>
    decreases entries.len(),
{
    if entries.len() == 0 {
        Map::empty()
    } else {
        value_bindings(entries.drop_last()).insert(entries.last().0@, value_term(entries.last().1))
    }
}

/// Whether no key stands for two entries.
spec fn distinct_keys<'a>(entries: Seq<(Vec<u8>, Value<'a>)>) -> bool {
    forall|i: int, j: int| 0 <= i < j < entries.len() ==> entries[i].0@ != entries[j].0@
}

/// `bendy::serde::from_bytes` for a `bendy::value::Value`: reads the bencoded value at the
/// front of the octets. Both the value and the words of an error depend on nothing but the
/// octets; which they are is left to the name. A value has one spelling only: numbers are
/// read without leading zeros, and keys in ascending order, each once. So each entry of a
/// dictionary stands in the octets as its key and what `bendy::serde::to_bytes` writes for
/// its value.
#[verifier::external_body]
fn value_from_octets(octets: &[u8]) -> (result: Result<Value<'_>, String>)
    ensures
        bencode_of(octets@) == match result {
            Ok(value) => Ok::<Term, Seq<char>>(value_term(value)),
            Err(text) => Err::<Term, Seq<char>>(text@),
        },
        result matches Ok(value) ==> entries_stand_in(value_term(value), octets@),
{
    match bendy::serde::from_bytes::<Value<'_>>(octets) {
        Ok(value) => Ok(value),
        Err(error) => Err(error.to_string()),
    }
}

/// `bendy::serde::to_bytes` for a `bendy::value::Value`: writes the value. Both the octets
/// and the words of an error depend on nothing but what the value says; which they are is
/// left to the name. It fails where lists and dictionaries stand too deep inside each other,
/// and on nothing else. What it writes `bendy::serde::from_bytes` reads back.
#[verifier::external_body]
fn value_to_octets(value: &Value<'_>) -> (result: Result<Vec<u8>, String>)
    ensures
        bencode_octets(value_term(*value)) == match result {
            Ok(octets) => Ok::<Seq<u8>, Seq<char>>(octets@),
            Err(text) => Err::<Seq<u8>, Seq<char>>(text@),
        },
        result is Ok <==> nested_within(value_term(*value), deepest()),
        result matches Ok(octets) ==> (bencode_of(octets@) matches Ok(term) && term == value_term(
            *value,
        )),
{
    match bendy::serde::to_bytes(value) {
        Ok(octets) => Ok(octets),
        Err(error) => Err(error.to_string()),
    }
}

/// The variants of `bendy::value::Value`: an integer, a byte string, a list of values, or a
/// dictionary from byte strings to values, which has one entry under each key.
#[verifier::external_body]
fn take_apart<'a>(value: Value<'a>) -> (parts: Parts<'a>)
    ensures
        parts.term() == value_term(value),
        parts matches Parts::Dict(entries) ==> distinct_keys(entries@),
{
    match value {
        Value::Integer(n) => Parts::Integer(n),
        Value::Bytes(octets) => Parts::String(octets.into_owned()),
        Value::List(items) => Parts::List(items),
        Value::Dict(dict) => Parts::Dict(
            dict.into_iter().map(|(key, item)| (key.into_owned(), item)).collect(),
        ),
    }
}

/// The variants of `bendy::value::Value`, the other way round. No two entries of a dictionary
/// may have the same key.
#[verifier::external_body]
fn put_together<'a>(parts: Parts<'a>) -> (value: Value<'a>)
    requires
        parts matches Parts::Dict(entries) ==> distinct_keys(entries@),
    ensures
        value_term(value) == parts.term(),
{
    match parts {
        Parts::Integer(n) => Value::Integer(n),
        Parts::String(octets) => Value::Bytes(octets.into()),
        Parts::List(items) => Value::List(items),
        Parts::Dict(entries) => Value::Dict(
            entries.into_iter().map(|(key, item)| (key.into(), item)).collect(),
        ),
    }
}

/// The items of a list say what its parts say.
pub proof fn terms_are_theirs(items: Seq<Bencode>)
    ensures
        terms(items).len() == items.len(),
        forall|i: int| 0 <= i < items.len() ==> #[trigger] terms(items)[i] == items[i].term(),
    decreases items.len(),
{
    if items.len() > 0 {
        terms_are_theirs(items.drop_last());
    }
}

/// A dictionary without repeated keys holds each of its entries.
proof fn entry_is_bound<'a>(entries: Seq<(Vec<u8>, Value<'a>)>, at: int)
    requires
        distinct_keys(entries),
        0 <= at < entries.len(),
    ensures
        value_bindings(entries).dom().finite(),
        value_bindings(entries).dom().contains(entries[at].0@),
        value_bindings(entries)[entries[at].0@] == value_term(entries[at].1),
    decreases entries.len(),
{
    bindings_are_finite(entries);
    let earlier = entries.drop_last();
    if at < earlier.len() {
        assert forall|i: int, j: int| 0 <= i < j < earlier.len() implies earlier[i].0@
            != earlier[j].0@ by {
            assert(earlier[i] == entries[i] && earlier[j] == entries[j]);
        }
        entry_is_bound(earlier, at);
        assert(entries[at].0@ != entries[entries.len() - 1].0@);
    }
}

/// A dictionary has finitely many keys.
proof fn bindings_are_finite<'a>(entries: Seq<(Vec<u8>, Value<'a>)>)
    ensures
        value_bindings(entries).dom().finite(),
    decreases entries.len(),
{
    if entries.len() > 0 {
        bindings_are_finite(entries.drop_last());
    }
}

/// Entries that say the same, key for key and value for value, bind the same.
proof fn same_bindings<'a>(entries: Seq<(Vec<u8>, Bencode)>, values: Seq<(Vec<u8>, Value<'a>)>)
    requires
        entries.len() == values.len(),
        forall|i: int|
            0 <= i < entries.len() ==> (#[trigger] entries[i]).0@ == values[i].0@
                && entries[i].1.term() == value_term(values[i].1),
    ensures
        bindings(entries) == value_bindings(values),
    decreases entries.len(),
{
    if entries.len() > 0 {
        assert forall|i: int| 0 <= i < entries.drop_last().len() implies (
        #[trigger] entries.drop_last()[i]).0@ == values.drop_last()[i].0@
            && entries.drop_last()[i].1.term() == value_term(values.drop_last()[i].1) by {
            assert(entries.drop_last()[i] == entries[i]);
        }
        same_bindings(entries.drop_last(), values.drop_last());
        assert(entries[entries.len() - 1].0@ == values[values.len() - 1].0@);
    }
}

/// Turns a value of the `bendy` crate into one of this library.
fn bencode_from_value(value: Value<'_>) -> (bencode: Bencode)
    ensures
        bencode@ == value_term(value),
    decreases value_term(value), 1nat,
{
    match take_apart(value) {
        Parts::Integer(n) => Bencode::Integer(n),
        Parts::String(octets) => Bencode::String(octets),
        Parts::List(values) => list_from_values(values),
        Parts::Dict(values) => dict_from_values(values),
    }
}

/// Turns the items of a list of the `bendy` crate into a list of this library.
fn list_from_values(values: Vec<Value<'_>>) -> (bencode: Bencode)
    ensures
        bencode@ == Parts::List(values).term(),
    decreases Parts::List(values).term(), 0nat,
{
    let ghost term = Parts::List(values).term();
    let ghost all = values@;
    let mut items: Vec<Bencode> = Vec::new();
    for item in it: values
        invariant
            it.seq() == all,
            term == Term::List(Seq::new(all.len(), |i: int| value_term(all[i]))),
            items@.len() == it.index(),
            forall|i: int| 0 <= i < items@.len() ==> items@[i].term() == value_term(all[i]),
    {
        proof {
            let listed = term->List_0;
            assert(value_term(item) == listed[it.index()]);
            assert(decreases_to!(term => listed));
            assert(decreases_to!(listed => listed[it.index()]));
        }
        items.push(bencode_from_value(item));
    }
    proof {
        terms_are_theirs(items@);
        assert(terms(items@) =~= Seq::new(all.len(), |i: int| value_term(all[i])));
    }
    Bencode::List(items)
}

/// Turns the entries of a dictionary of the `bendy` crate into a dictionary of this library.
fn dict_from_values(values: Vec<(Vec<u8>, Value<'_>)>) -> (bencode: Bencode)
    requires
        distinct_keys(values@),
    ensures
        bencode@ == Parts::Dict(values).term(),
    decreases Parts::Dict(values).term(), 0nat,
{
    let ghost term = Parts::Dict(values).term();
    let ghost all = values@;
    let mut entries: Vec<(Vec<u8>, Bencode)> = Vec::new();
    for entry in it: values
        invariant
            it.seq() == all,
            distinct_keys(all),
            term == Term::Dict(value_bindings(all)),
            entries@.len() == it.index(),
            forall|i: int|
                0 <= i < entries@.len() ==> (#[trigger] entries@[i]).0@ == all[i].0@
                    && entries@[i].1.term() == value_term(all[i].1),
    {
        proof {
            let bound = term->Dict_0;
            entry_is_bound(all, it.index());
            assert(decreases_to!(term => bound));
            assert(decreases_to!(bound => bound[entry.0@]));
        }
        let (key, item) = entry;
        entries.push((key, bencode_from_value(item)));
    }
    proof {
        same_bindings(entries@, all);
    }
    Bencode::Dict(BencodeDict { entries })
}

/// To give an entry of a dictionary without repeated keys another value is to bind its key
/// to that value.
proof fn replaced_binding<'a>(
    entries: Seq<(Vec<u8>, Value<'a>)>,
    at: int,
    entry: (Vec<u8>, Value<'a>),
)
    requires
        distinct_keys(entries),
        0 <= at < entries.len(),
        entries[at].0@ == entry.0@,
    ensures
        distinct_keys(entries.update(at, entry)),
        value_bindings(entries.update(at, entry)) == value_bindings(entries).insert(
            entry.0@,
            value_term(entry.1),
        ),
    decreases entries.len(),
{
    let replaced = entries.update(at, entry);
    let earlier = entries.drop_last();
    if at < earlier.len() {
        assert forall|i: int, j: int| 0 <= i < j < earlier.len() implies earlier[i].0@
            != earlier[j].0@ by {
            assert(earlier[i] == entries[i] && earlier[j] == entries[j]);
        }
        replaced_binding(earlier, at, entry);
        assert(replaced.drop_last() =~= earlier.update(at, entry));
        assert(entries[at].0@ != entries[entries.len() - 1].0@);
    } else {
        assert(replaced.drop_last() =~= earlier);
    }
    assert(value_bindings(replaced) =~= value_bindings(entries).insert(
        entry.0@,
        value_term(entry.1),
    ));
}

/// Binds a key to a value: an entry that has the key already is replaced.
fn bind<'a>(entries: &mut Vec<(Vec<u8>, Value<'a>)>, key: Vec<u8>, item: Value<'a>)
    requires
        distinct_keys(old(entries)@),
    ensures
        distinct_keys(final(entries)@),
        value_bindings(final(entries)@) == value_bindings(old(entries)@).insert(
            key@,
            value_term(item),
        ),
{
    let ghost before = entries@;
    let mut at: usize = 0;
    while at < entries.len()
        invariant
            entries@ == before,
            before == old(entries)@,
            distinct_keys(before),
            at <= before.len(),
            forall|i: int| 0 <= i < at ==> (#[trigger] before[i]).0@ != key@,
        decreases before.len() - at,
    {
        if same_octets(entries[at].0.as_slice(), key.as_slice()) {
            proof {
                replaced_binding(before, at as int, (key, item));
            }
            entries.set(at, (key, item));
            return ;
        }
        at += 1;
    }
    entries.push((key, item));
    assert(entries@.drop_last() =~= before);
}

/// Turns a value of this library into one of the `bendy` crate.
fn value_from_bencode(bencode: &Bencode) -> (value: Value<'static>)
    ensures
        value_term(value) == bencode@,
    decreases bencode,
{
    match bencode {
        Bencode::Integer(n) => put_together(Parts::Integer(*n)),
        Bencode::String(octets) => put_together(Parts::String(copy_octets(octets.as_slice()))),
        Bencode::List(items) => {
            assert(decreases_to!(bencode => bencode->List_0));
            value_from_items(items)
        },
        Bencode::Dict(dict) => {
            assert(decreases_to!(bencode => bencode->Dict_0));
            value_from_dict(dict)
        },
    }
}

/// Turns the items of a list into a list of the `bendy` crate.
fn value_from_items(items: &Vec<Bencode>) -> (value: Value<'static>)
    ensures
        value_term(value) == Term::List(terms(items@)),
    decreases items,
{
    let mut values: Vec<Value<'static>> = Vec::new();
    let mut i: usize = 0;
    while i < items.len()
        invariant
            i <= items@.len(),
            values@.len() == i,
            forall|j: int| 0 <= j < i ==> value_term(values@[j]) == items@[j].term(),
        decreases items@.len() - i,
    {
        proof {
            assert(decreases_to!(items => items@));
            assert(decreases_to!(items@ => items@[i as int]));
        }
        values.push(value_from_bencode(&items[i]));
        i += 1;
    }
    proof {
        terms_are_theirs(items@);
        assert(terms(items@) =~= Seq::new(values@.len(), |j: int| value_term(values@[j])));
    }
    put_together(Parts::List(values))
}

/// Turns a dictionary into one of the `bendy` crate.
fn value_from_dict(dict: &BencodeDict) -> (value: Value<'static>)
    ensures
        value_term(value) == Term::Dict(dict@),
    decreases dict,
{
    let mut values: Vec<(Vec<u8>, Value<'static>)> = Vec::new();
    let mut i: usize = 0;
    while i < dict.entries.len()
        invariant
            i <= dict.entries@.len(),
            distinct_keys(values@),
            value_bindings(values@) == bindings(dict.entries@.take(i as int)),
        decreases dict.entries@.len() - i,
    {
        proof {
            let entry = dict.entries@[i as int];
            assert(decreases_to!(dict => dict.entries));
            assert(decreases_to!(dict.entries => dict.entries@));
            assert(decreases_to!(dict.entries@ => entry));
            assert(decreases_to!(entry => entry.1));
            assert(dict.entries@.take(i + 1).drop_last() =~= dict.entries@.take(i as int));
            assert(dict.entries@.take(i + 1).last() == entry);
        }
        let key = copy_octets(dict.entries[i].0.as_slice());
        let item = value_from_bencode(&dict.entries[i].1);
        bind(&mut values, key, item);
        i += 1;
    }
    assert(dict.entries@.take(dict.entries@.len() as int) =~= dict.entries@);
    put_together(Parts::Dict(values))
}

impl Bencode {
    /// Reads the bencoded value at the front of the octets. The entries of a dictionary stand
    /// in the octets as they would be written.
    pub fn from_bytes(octets: &[u8]) -> (result: Result<Bencode, String>)
        ensures
            bencode_of(octets@) == match result {
                Ok(bencode) => Ok::<Term, Seq<char>>(bencode@),
                Err(text) => Err::<Term, Seq<char>>(text@),
            },
            result matches Ok(bencode) ==> entries_stand_in(bencode@, octets@),
    {
        match value_from_octets(octets) {
            Ok(value) => Ok(bencode_from_value(value)),
            Err(text) => Err(text),
        }
    }

    /// Writes the value, where it is not nested too deeply. What is written is read back.
    pub fn to_bytes(&self) -> (result: Result<Vec<u8>, String>)
        ensures
            bencode_octets(self@) == match result {
                Ok(octets) => Ok::<Seq<u8>, Seq<char>>(octets@),
                Err(text) => Err::<Seq<u8>, Seq<char>>(text@),
            },
            result is Ok <==> nested_within(self@, deepest()),
            result matches Ok(octets) ==> bencode_of(octets@) == Ok::<Term, Seq<char>>(self@),
    {
        value_to_octets(&value_from_bencode(self))
    }
}

impl BencodeDict {
    /// What stands under `key`.
    pub fn get(&self, key: &[u8]) -> (found: Option<&Bencode>)
        ensures
            match found {
                Some(bencode) => self@.dom().contains(key@) && self@[key@] == bencode@,
                None => !self@.dom().contains(key@),
            },
    {
        let mut end: usize = self.entries.len();
        assert(self.entries@.take(end as int) =~= self.entries@);
        while end > 0
            invariant
                end <= self.entries@.len(),
                self@.dom().contains(key@) == bindings(self.entries@.take(end as int)).dom().contains(
                    key@,
                ),
                self@.dom().contains(key@) ==> self@[key@] == bindings(
                    self.entries@.take(end as int),
                )[key@],
            decreases end,
        {
            end -= 1;
            proof {
                let rest = self.entries@.take(end + 1);
                assert(rest.drop_last() =~= self.entries@.take(end as int));
                assert(rest.last() == self.entries@[end as int]);
            }
            if same_octets(self.entries[end].0.as_slice(), key) {
                return Some(&self.entries[end].1);
            }
        }
        None
    }
}

/// A value is seen as what it is, down to its items and entries.
pub proof fn values_are_seen_whole(n: i64, octets: Vec<u8>, items: Vec<Bencode>, dict: BencodeDict)
    ensures
        Bencode::Integer(n)@ == Term::Integer(n),
        Bencode::String(octets)@ == Term::String(octets@),
        Bencode::List(items)@ is List,
        Bencode::List(items)@->List_0.len() == items@.len(),
        forall|i: int|
            0 <= i < items@.len() ==> #[trigger] Bencode::List(items)@->List_0[i] == items@[i]@,
        Bencode::Dict(dict)@ == Term::Dict(dict@),
{
    terms_are_theirs(items@);
}

/// A dictionary has the keys of its entries, and under each of them the value of the last
/// entry that has it.
pub proof fn last_entry_counts(dict: BencodeDict, at: int)
    requires
        0 <= at < dict.entries@.len(),
        forall|i: int|
            at < i < dict.entries@.len() ==> (#[trigger] dict.entries@[i]).0@
                != dict.entries@[at].0@,
    ensures
        dict@.dom().contains(dict.entries@[at].0@),
        dict@[dict.entries@[at].0@] == dict.entries@[at].1@,
{
    last_binding_counts(dict.entries@, at);
}

proof fn last_binding_counts(entries: Seq<(Vec<u8>, Bencode)>, at: int)
    requires
        0 <= at < entries.len(),
        forall|i: int| at < i < entries.len() ==> (#[trigger] entries[i]).0@ != entries[at].0@,
    ensures
        bindings(entries).dom().contains(entries[at].0@),
        bindings(entries)[entries[at].0@] == entries[at].1.term(),
    decreases entries.len(),
{
    if at < entries.len() - 1 {
        let earlier = entries.drop_last();
        assert forall|i: int| at < i < earlier.len() implies (#[trigger] earlier[i]).0@
            != earlier[at].0@ by {
            assert(earlier[i] == entries[i]);
        }
        last_binding_counts(earlier, at);
        assert(entries[entries.len() - 1].0@ != entries[at].0@);
    }
}

/// A dictionary has no keys but those of its entries.
pub proof fn keys_come_from_entries(dict: BencodeDict, key: Seq<u8>)
    requires
        forall|i: int| 0 <= i < dict.entries@.len() ==> (#[trigger] dict.entries@[i]).0@ != key,
    ensures
        !dict@.dom().contains(key),
{
    bindings_come_from_entries(dict.entries@, key);
}

proof fn bindings_come_from_entries(entries: Seq<(Vec<u8>, Bencode)>, key: Seq<u8>)
    requires
        forall|i: int| 0 <= i < entries.len() ==> (#[trigger] entries[i]).0@ != key,
    ensures
        !bindings(entries).dom().contains(key),
    decreases entries.len(),
{
    if entries.len() > 0 {
        let earlier = entries.drop_last();
        assert forall|i: int| 0 <= i < earlier.len() implies (#[trigger] earlier[i]).0@ != key by {
            assert(earlier[i] == entries[i]);
        }
        bindings_come_from_entries(earlier, key);
        assert(entries[entries.len() - 1].0@ != key);
    }
}

} // verus!
