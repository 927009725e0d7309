//! The bootloader's environment: variables with their values, kept in a
//! block of fixed size that carries a checksum.
//!
//! The block has [`ENV_SIZE`] bytes. The first [`PAYLOAD_SIZE`] of them are
//! the payload; the last four are the CRC-32 checksum of the payload, least
//! significant byte first. The payload lists the variables, each as its
//! name, an equals sign, its value and a zero byte. A further zero byte
//! ends the list, and zero bytes fill the rest.
//!
//! A block of another size, with a checksum that does not match, or with a
//! payload that is no such list, is corrupt. A corrupt block is read as the
//! empty environment: the bootloader then boots the default partition set.

use crate::boot::checksum::{
    crc32, crc32_of, from_le_bytes, le_bytes, le_value, lemma_le_round_trip, to_le_bytes,
};
use crate::utils::text::same_bytes;
use vstd::prelude::*;
use vstd::slice::{slice_subrange, slice_to_vec};
use vstd::string::StringSliceAdditionalSpecFns;

verus! {

/// Size of the environment block.
pub const ENV_SIZE: usize = 4096;

/// Size of the payload: the block without its checksum.
pub const PAYLOAD_SIZE: usize = 4092;

/// The byte between a name and its value.
pub const EQUALS: u8 = 0x3d;

/// The byte that ends a variable, and the list of variables.
pub const NUL: u8 = 0;

/// Why an environment cannot be written as a block.
#[derive(Clone, Copy, Debug, PartialEq, Eq, Structural)]
pub enum EnvError {
    /// A name is empty or holds an equals sign or a zero byte.
    InvalidName,
    /// A value holds a zero byte.
    InvalidValue,
    /// The variables do not fit into the payload.
    TooLarge,
}

/// Whether `name` can be written: it is not empty and holds neither an
/// equals sign nor a zero byte.
pub open spec fn valid_name(name: Seq<u8>) -> bool {
    &&& name.len() > 0
    &&& forall|i: int| 0 <= i < name.len() ==> name[i] != NUL && name[i] != EQUALS
}

/// Whether `value` can be written: it holds no zero byte.
pub open spec fn valid_value(value: Seq<u8>) -> bool {
    forall|i: int| 0 <= i < value.len() ==> value[i] != NUL
}

/// Whether a variable named `name` is among `vars`.
pub open spec fn has_name(vars: Seq<(Seq<u8>, Seq<u8>)>, name: Seq<u8>) -> bool {
    exists|i: int| 0 <= i < vars.len() && (#[trigger] vars[i]).0 == name
}

/// Where the variable named `name` stands in `vars`, if it is among them.
pub open spec fn index_of_name(vars: Seq<(Seq<u8>, Seq<u8>)>, name: Seq<u8>) -> int {
    choose|i: int| 0 <= i < vars.len() && (#[trigger] vars[i]).0 == name
}

/// Whether no two of `vars` have the same name.
pub open spec fn distinct_names(vars: Seq<(Seq<u8>, Seq<u8>)>) -> bool {
    forall|i: int, j: int|
        0 <= i < j < vars.len() ==> (#[trigger] vars[i]).0 != (#[trigger] vars[j]).0
}

/// The value of the variable named `name`, if it is among `vars`.
pub open spec fn value_of(vars: Seq<(Seq<u8>, Seq<u8>)>, name: Seq<u8>) -> Option<Seq<u8>> {
    if has_name(vars, name) {
        Some(vars[index_of_name(vars, name)].1)
    } else {
        None
    }
}

/// `vars` after the variable `name` was set to `value`: a variable of that
/// name keeps its place and gets the value, a new one is added at the end.
pub open spec fn with_variable(
    vars: Seq<(Seq<u8>, Seq<u8>)>,
    name: Seq<u8>,
    value: Seq<u8>,
) -> Seq<(Seq<u8>, Seq<u8>)> {
    if has_name(vars, name) {
        vars.update(index_of_name(vars, name), (name, value))
    } else {
        vars.push((name, value))
    }
}

/// One variable as it stands in the payload.
pub open spec fn entry(name: Seq<u8>, value: Seq<u8>) -> Seq<u8> {
    name + seq![EQUALS] + value + seq![NUL]
}

/// The variables as they stand in the payload, one after the other.
pub open spec fn entries(vars: Seq<(Seq<u8>, Seq<u8>)>) -> Seq<u8>
    decreases vars.len(),
{
    if vars.len() == 0 {
        Seq::empty()
    } else {
        entries(vars.drop_last()) + entry(vars.last().0, vars.last().1)
    }
}

/// `count` zero bytes.
pub open spec fn zeros(count: int) -> Seq<u8> {
    Seq::new(count as nat, |i: int| NUL)
}

/// The payload that holds `vars`.
pub open spec fn payload_of(vars: Seq<(Seq<u8>, Seq<u8>)>) -> Seq<u8> {
    entries(vars) + zeros(PAYLOAD_SIZE - entries(vars).len())
}

/// The block that holds `vars`: the payload and its checksum.
pub open spec fn block_of(vars: Seq<(Seq<u8>, Seq<u8>)>) -> Seq<u8> {
    payload_of(vars) + le_bytes(crc32_of(payload_of(vars)))
}

/// What writing `vars` as a block gives: the block, or why there is none.
///
/// Names are looked at first, then values, then the size: the zero byte
/// that ends the list must fit as well.
pub open spec fn encoded(vars: Seq<(Seq<u8>, Seq<u8>)>) -> Result<Seq<u8>, EnvError> {
    if exists|i: int| 0 <= i < vars.len() && !valid_name((#[trigger] vars[i]).0) {
        Err(EnvError::InvalidName)
    } else if exists|i: int| 0 <= i < vars.len() && !valid_value((#[trigger] vars[i]).1) {
        Err(EnvError::InvalidValue)
    } else if entries(vars).len() >= PAYLOAD_SIZE {
        Err(EnvError::TooLarge)
    } else {
        Ok(block_of(vars))
    }
}

/// Whether `index` is where `wanted` first stands in `bytes`, or is the
/// length of `bytes` if `wanted` stands nowhere in them.
pub open spec fn is_first_index(bytes: Seq<u8>, wanted: u8, index: int) -> bool {
    &&& 0 <= index <= bytes.len()
    &&& forall|i: int| 0 <= i < index ==> bytes[i] != wanted
    &&& index < bytes.len() ==> bytes[index] == wanted
}

/// Where `wanted` first stands in `bytes`; the length of `bytes` if nowhere.
pub open spec fn first_index(bytes: Seq<u8>, wanted: u8) -> int {
    choose|index: int| is_first_index(bytes, wanted, index)
}

/// The variables that a payload lists, if it is a list of variables.
///
/// The list ends at the first empty entry. An entry without an equals
/// sign, one with an empty name, and a payload in which nothing ends the
/// list make the payload invalid.
pub open spec fn parsed(payload: Seq<u8>) -> Option<Seq<(Seq<u8>, Seq<u8>)>>
    decreases payload.len(),
{
    let end = first_index(payload, NUL);
    if !(0 <= end < payload.len()) {
        None
    } else if end == 0 {
        Some(Seq::empty())
    } else {
        let text = payload.subrange(0, end);
        let split = first_index(text, EQUALS);
        if !(0 < split < end) {
            None
        } else {
            match parsed(payload.skip(end + 1)) {
                Some(rest) => Some(
                    seq![(text.subrange(0, split), text.subrange(split + 1, end))] + rest,
                ),
                None => None,
            }
        }
    }
}

/// Whether the checksum at the end of a block is that of its payload.
pub open spec fn checksum_matches(block: Seq<u8>) -> bool {
    le_value(block.subrange(PAYLOAD_SIZE as int, ENV_SIZE as int)) == crc32_of(
        block.subrange(0, PAYLOAD_SIZE as int),
    )
}

/// The variables that a block holds; none if the block is corrupt.
pub open spec fn decoded(block: Seq<u8>) -> Seq<(Seq<u8>, Seq<u8>)> {
    if block.len() == ENV_SIZE && checksum_matches(block) {
        match parsed(block.subrange(0, PAYLOAD_SIZE as int)) {
            Some(vars) => if distinct_names(vars) {
                vars
            } else {
                Seq::empty()
            },
            None => Seq::empty(),
        }
    } else {
        Seq::empty()
    }
}

/// There is one first index only.
pub proof fn lemma_first_index(bytes: Seq<u8>, wanted: u8, index: int)
    requires
        is_first_index(bytes, wanted, index),
    ensures
        first_index(bytes, wanted) == index,
{
    let chosen = first_index(bytes, wanted);
    assert(is_first_index(bytes, wanted, chosen));
    if chosen < index {
        assert(bytes[chosen] != wanted);
    } else if index < chosen {
        assert(bytes[index] != wanted);
    }
}

/// A block whose checksum does not match holds no variables.
pub proof fn lemma_checksum_mismatch_reads_empty(block: Seq<u8>)
    requires
        !checksum_matches(block),
    ensures
        decoded(block) == Seq::<(Seq<u8>, Seq<u8>)>::empty(),
{
}

/// A block of the wrong size holds no variables.
pub proof fn lemma_wrong_size_reads_empty(block: Seq<u8>)
    requires
        block.len() != ENV_SIZE,
    ensures
        decoded(block) == Seq::<(Seq<u8>, Seq<u8>)>::empty(),
{
}

/// Variables listed one after the other are the first of them followed by
/// the others.
pub proof fn lemma_entries_from_front(vars: Seq<(Seq<u8>, Seq<u8>)>)
    requires
        vars.len() > 0,
    ensures
        entries(vars) == entry(vars[0].0, vars[0].1) + entries(vars.drop_first()),
    decreases vars.len(),
{
    if vars.len() == 1 {
        assert(vars.drop_last() =~= Seq::empty());
        assert(vars.drop_first() =~= Seq::empty());
        assert(entries(vars.drop_last()) =~= Seq::empty());
        assert(entries(vars) =~= entry(vars[0].0, vars[0].1) + entries(vars.drop_first()));
    } else {
        lemma_entries_from_front(vars.drop_last());
        assert(vars.drop_last().drop_first() =~= vars.drop_first().drop_last());
        assert(vars.drop_first().last() == vars.last());
        assert(vars.drop_last()[0] == vars[0]);
        assert(entries(vars) =~= entry(vars[0].0, vars[0].1) + entries(vars.drop_first()));
    }
}

/// A payload that begins with a valid variable lists that variable and
/// then what the rest of the payload lists.
pub proof fn lemma_parsed_entry(name: Seq<u8>, value: Seq<u8>, rest: Seq<u8>)
    requires
        valid_name(name),
        valid_value(value),
    ensures
        parsed(entry(name, value) + rest) == match parsed(rest) {
            Some(vars) => Some(seq![(name, value)] + vars),
            None => None,
        },
{
    let payload = entry(name, value) + rest;
    let end = (name.len() + 1 + value.len()) as int;
    assert(payload[end] == NUL);
    assert forall|i: int| 0 <= i < end implies payload[i] != NUL by {
        if i < name.len() {
            assert(payload[i] == name[i]);
        } else if i > name.len() {
            assert(payload[i] == value[i - name.len() - 1]);
        }
    }
    lemma_first_index(payload, NUL, end);
    let text = payload.subrange(0, end);
    let split = name.len() as int;
    assert(text[split] == EQUALS);
    assert forall|i: int| 0 <= i < split implies text[i] != EQUALS by {
        assert(text[i] == name[i]);
    }
    lemma_first_index(text, EQUALS, split);
    assert(text.subrange(0, split) =~= name);
    assert(text.subrange(split + 1, end) =~= value);
    assert(payload.skip(end + 1) =~= rest);
}

/// Zero bytes, at least one, list no variables.
pub proof fn lemma_parsed_zeros(count: int)
    requires
        count >= 1,
    ensures
        parsed(zeros(count)) == Some(Seq::<(Seq<u8>, Seq<u8>)>::empty()),
{
    lemma_first_index(zeros(count), NUL, 0);
}

/// Valid variables, followed by at least one zero byte, are listed as they
/// are.
pub proof fn lemma_parsed_entries(vars: Seq<(Seq<u8>, Seq<u8>)>, padding: int)
    requires
        forall|i: int|
            0 <= i < vars.len() ==> valid_name((#[trigger] vars[i]).0) && valid_value(vars[i].1),
        padding >= 1,
    ensures
        parsed(entries(vars) + zeros(padding)) == Some(vars),
    decreases vars.len(),
{
    if vars.len() == 0 {
        lemma_parsed_zeros(padding);
        assert(entries(vars) + zeros(padding) =~= zeros(padding));
    } else {
        let first = vars[0];
        let others = vars.drop_first();
        lemma_entries_from_front(vars);
        assert forall|i: int| 0 <= i < others.len() implies valid_name((#[trigger] others[i]).0)
            && valid_value(others[i].1) by {
            assert(others[i] == vars[i + 1]);
        }
        lemma_parsed_entries(others, padding);
        lemma_parsed_entry(first.0, first.1, entries(others) + zeros(padding));
        assert(entries(vars) + zeros(padding) =~= entry(first.0, first.1) + (entries(others)
            + zeros(padding)));
        assert(seq![first] + others =~= vars);
    }
}

/// Reading the block that holds an environment gives back the environment.
pub proof fn lemma_decode_encoded(vars: Seq<(Seq<u8>, Seq<u8>)>)
    requires
        distinct_names(vars),
        encoded(vars) is Ok,
    ensures
        decoded(encoded(vars).unwrap()) == vars,
{
    let payload = payload_of(vars);
    let block = block_of(vars);
    let checksum = crc32_of(payload);
    lemma_le_round_trip(checksum);
    assert(payload.len() == PAYLOAD_SIZE);
    assert(block.len() == ENV_SIZE);
    assert(block.subrange(0, PAYLOAD_SIZE as int) =~= payload);
    assert(block.subrange(PAYLOAD_SIZE as int, ENV_SIZE as int) =~= le_bytes(checksum));
    assert forall|i: int| 0 <= i < vars.len() implies valid_name((#[trigger] vars[i]).0)
        && valid_value(vars[i].1) by {
    }
    lemma_parsed_entries(vars, PAYLOAD_SIZE - entries(vars).len());
}

/// Every run of bytes has a first index of every byte.
pub proof fn lemma_first_index_exists(bytes: Seq<u8>, wanted: u8)
    ensures
        is_first_index(bytes, wanted, first_index(bytes, wanted)),
    decreases bytes.len(),
{
    if bytes.len() == 0 {
        assert(is_first_index(bytes, wanted, 0));
    } else {
        let shorter = bytes.drop_last();
        lemma_first_index_exists(shorter, wanted);
        let found = first_index(shorter, wanted);
        assert forall|i: int| 0 <= i < found implies bytes[i] != wanted by {
            assert(shorter[i] == bytes[i]);
        }
        if found < shorter.len() {
            assert(shorter[found] == bytes[found]);
            assert(is_first_index(bytes, wanted, found));
        } else if bytes.last() == wanted {
            assert(is_first_index(bytes, wanted, found));
        } else {
            assert(is_first_index(bytes, wanted, bytes.len() as int));
        }
    }
}

/// The variables that a payload lists have names and values that can be
/// written, and they take less room than the payload.
pub proof fn lemma_parsed_can_be_written(payload: Seq<u8>)
    requires
        parsed(payload) is Some,
    ensures
        forall|i: int|
            0 <= i < parsed(payload).unwrap().len() ==> valid_name(
                (#[trigger] parsed(payload).unwrap()[i]).0,
            ) && valid_value(parsed(payload).unwrap()[i].1),
        entries(parsed(payload).unwrap()).len() < payload.len(),
    decreases payload.len(),
{
    let vars = parsed(payload).unwrap();
    let end = first_index(payload, NUL);
    lemma_first_index_exists(payload, NUL);
    if end == 0 {
        assert(vars =~= Seq::empty());
    } else {
        let text = payload.subrange(0, end);
        let split = first_index(text, EQUALS);
        lemma_first_index_exists(text, EQUALS);
        let name = text.subrange(0, split);
        let value = text.subrange(split + 1, end);
        let rest = payload.skip(end + 1);
        let others = parsed(rest).unwrap();
        lemma_parsed_can_be_written(rest);
        assert(vars == seq![(name, value)] + others);
        assert(valid_name(name)) by {
            assert forall|i: int| 0 <= i < name.len() implies name[i] != NUL && name[i]
                != EQUALS by {
                assert(name[i] == text[i]);
                assert(text[i] == payload[i]);
            }
        }
        assert(valid_value(value)) by {
            assert forall|i: int| 0 <= i < value.len() implies value[i] != NUL by {
                assert(value[i] == text[split + 1 + i]);
                assert(text[split + 1 + i] == payload[split + 1 + i]);
            }
        }
        assert forall|i: int| 0 <= i < vars.len() implies valid_name((#[trigger] vars[i]).0)
            && valid_value(vars[i].1) by {
            if i > 0 {
                assert(vars[i] == others[i - 1]);
            }
        }
        lemma_entries_from_front(vars);
        assert(vars.drop_first() =~= others);
        assert(entry(name, value).len() == end + 1);
    }
}

/// What was read from a block can be written as a block again, and no name
/// occurs twice in it.
pub proof fn lemma_decoded_can_be_written(block: Seq<u8>)
    ensures
        distinct_names(decoded(block)),
        encoded(decoded(block)) is Ok,
{
    let vars = decoded(block);
    let payload = block.subrange(0, PAYLOAD_SIZE as int);
    if block.len() == ENV_SIZE && checksum_matches(block) && parsed(payload) is Some
        && distinct_names(parsed(payload).unwrap()) {
        lemma_parsed_can_be_written(payload);
    } else {
        assert(vars =~= Seq::empty());
    }
}

/// The value that was set last is the value that is read, and the names
/// stay distinct.
pub proof fn lemma_set_then_get(vars: Seq<(Seq<u8>, Seq<u8>)>, name: Seq<u8>, value: Seq<u8>)
    requires
        distinct_names(vars),
    ensures
        distinct_names(with_variable(vars, name, value)),
        value_of(with_variable(vars, name, value), name) == Some(value),
{
    let after = with_variable(vars, name, value);
    let place = if has_name(vars, name) {
        index_of_name(vars, name)
    } else {
        vars.len() as int
    };
    assert(after[place] == (name, value));
    assert forall|i: int, j: int| 0 <= i < j < after.len() implies (#[trigger] after[i]).0 != (
    #[trigger] after[j]).0 by {
        if has_name(vars, name) {
            assert(vars[place].0 == name);
            assert(after[i].0 == vars[i].0 && after[j].0 == vars[j].0);
        } else if j == vars.len() {
            assert(after[i] == vars[i]);
        } else {
            assert(after[i] == vars[i] && after[j] == vars[j]);
        }
    }
    let found = index_of_name(after, name);
    assert(has_name(after, name));
    if found != place {
        if found < place {
            assert(after[found].0 != after[place].0);
        } else {
            assert(after[place].0 != after[found].0);
        }
    }
}

/// Setting a variable leaves the values of all others as they were.
pub proof fn lemma_set_keeps_others(
    vars: Seq<(Seq<u8>, Seq<u8>)>,
    name: Seq<u8>,
    value: Seq<u8>,
    other: Seq<u8>,
)
    requires
        distinct_names(vars),
        other != name,
    ensures
        value_of(with_variable(vars, name, value), other) == value_of(vars, other),
{
    let after = with_variable(vars, name, value);
    lemma_set_then_get(vars, name, value);
    if has_name(vars, other) {
        let place = index_of_name(vars, other);
        assert(after[place] == vars[place]);
        assert(has_name(after, other));
        let found = index_of_name(after, other);
        if found != place {
            if found < place {
                assert(after[found].0 != after[place].0);
            } else {
                assert(after[place].0 != after[found].0);
            }
        }
    } else {
        if has_name(after, other) {
            let found = index_of_name(after, other);
            if found < vars.len() {
                assert(after[found].0 == vars[found].0);
            }
        }
    }
}

/// A variable of the environment.
#[derive(Debug)]
pub struct Variable {
    name: Vec<u8>,
    value: Vec<u8>,
}

/// The variables of an environment, as contracts speak of them.
pub closed spec fn variables_view(variables: Seq<Variable>) -> Seq<(Seq<u8>, Seq<u8>)> {
    Seq::new(variables.len(), |i: int| (variables[i].name@, variables[i].value@))
}

/// The bootloader's environment: variables, each with one value, in the
/// order in which they were first set.
#[derive(Debug)]
pub struct UBootEnv {
    variables: Vec<Variable>,
}

impl View for UBootEnv {
    type V = Seq<(Seq<u8>, Seq<u8>)>;

    /// The variables in their order, each as its name and its value.
    closed spec fn view(&self) -> Seq<(Seq<u8>, Seq<u8>)> {
        variables_view(self.variables@)
    }
}

impl Default for UBootEnv {
    /// The empty environment.
    fn default() -> (env: UBootEnv)
        ensures
            env@ == Seq::<(Seq<u8>, Seq<u8>)>::empty(),
    {
        UBootEnv::new()
    }
}

/// Where `wanted` first stands in `bytes` at or after `from`: the length of
/// `bytes` if nowhere.
fn find_byte(bytes: &[u8], from: usize, wanted: u8, limit: usize) -> (index: usize)
    requires
        from <= limit <= bytes.len(),
    ensures
        is_first_index(bytes@.subrange(from as int, limit as int), wanted, index - from),
{
    let mut index = from;
    while index < limit && bytes[index] != wanted
        invariant
            from <= index <= limit <= bytes.len(),
            forall|i: int| from <= i < index ==> bytes@[i] != wanted,
        decreases limit - index,
    {
        index += 1;
    }
    index
}

/// Whether `bytes` holds `wanted`.
fn holds_byte(bytes: &[u8], wanted: u8) -> (holds: bool)
    ensures
        holds == exists|i: int| 0 <= i < bytes@.len() && bytes@[i] == wanted,
{
    let index = find_byte(bytes, 0, wanted, bytes.len());
    assert(bytes@.subrange(0, bytes@.len() as int) =~= bytes@);
    index < bytes.len()
}

/// Where a variable named `name` stands among `variables`, if one does.
fn position(variables: &Vec<Variable>, name: &[u8]) -> (found: Option<usize>)
    ensures
        match found {
            Some(i) => i < variables@.len() && variables_view(variables@)[i as int].0 == name@,
            None => !has_name(variables_view(variables@), name@),
        },
{
    let mut i: usize = 0;
    while i < variables.len()
        invariant
            i <= variables.len(),
            forall|j: int| 0 <= j < i ==> (#[trigger] variables_view(variables@)[j]).0 != name@,
        decreases variables.len() - i,
    {
        if same_bytes(variables[i].name.as_slice(), name) {
            return Some(i);
        }
        i += 1;
    }
    None
}

/// A longer list of variables takes no less room than a part of it.
proof fn lemma_entries_grow(vars: Seq<(Seq<u8>, Seq<u8>)>, count: int)
    requires
        0 <= count <= vars.len(),
    ensures
        entries(vars.take(count)).len() <= entries(vars).len(),
    decreases vars.len() - count,
{
    if count == vars.len() {
        assert(vars.take(count) =~= vars);
    } else {
        lemma_entries_grow(vars, count + 1);
        assert(vars.take(count + 1).drop_last() =~= vars.take(count));
    }
}

/// What a payload lists, given what its beginning lists and its rest.
spec fn joined(
    vars: Seq<(Seq<u8>, Seq<u8>)>,
    rest: Option<Seq<(Seq<u8>, Seq<u8>)>>,
) -> Option<Seq<(Seq<u8>, Seq<u8>)>> {
    match rest {
        Some(others) => Some(vars + others),
        None => None,
    }
}

impl UBootEnv {
    /// No two variables have the same name.
    #[verifier::type_invariant]
    spec fn names_are_distinct(&self) -> bool {
        distinct_names(variables_view(self.variables@))
    }

    /// The empty environment.
    pub fn new() -> (env: UBootEnv)
        ensures
            env@ == Seq::<(Seq<u8>, Seq<u8>)>::empty(),
    {
        let env = UBootEnv { variables: Vec::new() };
        assert(env@ =~= Seq::empty());
        env
    }

    /// The number of variables.
    pub fn len(&self) -> (count: usize)
        ensures
            count == self@.len(),
    {
        self.variables.len()
    }

    /// Whether there are no variables.
    pub fn is_empty(&self) -> (empty: bool)
        ensures
            empty == (self@.len() == 0),
    {
        self.variables.len() == 0
    }

    /// Where the variable `name` stands, if there is one.
    fn find(&self, name: &[u8]) -> (found: Option<usize>)
        ensures
            match found {
                Some(i) => i < self@.len() && self@[i as int].0 == name@ && index_of_name(
                    self@,
                    name@,
                ) == i && has_name(self@, name@),
                None => !has_name(self@, name@),
            },
    {
        proof {
            use_type_invariant(self);
        }
        let found = position(&self.variables, name);
        proof {
            if let Some(i) = found {
                let chosen = index_of_name(self@, name@);
                assert(self@[i as int].0 == name@);
                assert(0 <= chosen < self@.len() && self@[chosen].0 == name@);
                if chosen != i {
                    assert(self@[chosen].0 != self@[i as int].0);
                }
            }
        }
        found
    }

    /// Sets the variable `name` to `value`. A variable that is there gets
    /// the new value; one that is not is added.
    pub fn set(&mut self, name: &str, value: &str)
        ensures
            final(self)@ == with_variable(old(self)@, name.spec_bytes(), value.spec_bytes()),
    {
        self.set_bytes(name.as_bytes(), value.as_bytes());
    }

    /// Sets the variable `name` to `value`, both given as bytes.
    pub fn set_bytes(&mut self, name: &[u8], value: &[u8])
        ensures
            final(self)@ == with_variable(old(self)@, name@, value@),
    {
        proof {
            use_type_invariant(&*self);
        }
        let variable = Variable { name: slice_to_vec(name), value: slice_to_vec(value) };
        let ghost before = self@;
        let found = self.find(name);
        let mut variables: Vec<Variable> = Vec::new();
        core::mem::swap(&mut self.variables, &mut variables);
        match found {
            Some(i) => {
                variables[i] = variable;
                assert(variables_view(variables@) =~= before.update(i as int, (name@, value@)));
            },
            None => {
                variables.push(variable);
                assert(variables_view(variables@) =~= before.push((name@, value@)));
            },
        }
        core::mem::swap(&mut self.variables, &mut variables);
    }

    /// The value of the variable `name`, if there is one.
    pub fn get(&self, name: &str) -> (value: Option<&[u8]>)
        ensures
            match value {
                Some(bytes) => value_of(self@, name.spec_bytes()) == Some(bytes@),
                None => value_of(self@, name.spec_bytes()) is None,
            },
    {
        match self.find(name.as_bytes()) {
            Some(i) => Some(self.variables[i].value.as_slice()),
            None => None,
        }
    }

    /// Writes the environment as a block: the payload that lists the
    /// variables, filled with zero bytes, and its checksum.
    ///
    /// There is no block if a name is empty or holds an equals sign or a
    /// zero byte, if a value holds a zero byte, or if the variables and the
    /// zero byte that ends their list do not fit into the payload.
    pub fn encode(&self) -> (result: Result<Vec<u8>, EnvError>)
        ensures
            match result {
                Ok(block) => encoded(self@) == Ok::<Seq<u8>, EnvError>(block@),
                Err(error) => encoded(self@) == Err::<Seq<u8>, EnvError>(error),
            },
    {
        let count = self.variables.len();
        let mut i: usize = 0;
        while i < count
            invariant
                i <= count == self.variables.len(),
                forall|j: int| 0 <= j < i ==> valid_name((#[trigger] self@[j]).0),
            decreases count - i,
        {
            let name = self.variables[i].name.as_slice();
            if name.len() == 0 || holds_byte(name, NUL) || holds_byte(name, EQUALS) {
                assert(!valid_name(self@[i as int].0));
                return Err(EnvError::InvalidName);
            }
            i += 1;
        }
        i = 0;
        while i < count
            invariant
                i <= count == self.variables.len(),
                forall|j: int| 0 <= j < count ==> valid_name((#[trigger] self@[j]).0),
                forall|j: int| 0 <= j < i ==> valid_value((#[trigger] self@[j]).1),
            decreases count - i,
        {
            if holds_byte(self.variables[i].value.as_slice(), NUL) {
                assert(!valid_value(self@[i as int].1));
                return Err(EnvError::InvalidValue);
            }
            i += 1;
        }
        let mut block: Vec<u8> = Vec::new();
        i = 0;
        while i < count
            invariant
                i <= count == self.variables.len(),
                forall|j: int| 0 <= j < count ==> valid_name((#[trigger] self@[j]).0),
                forall|j: int| 0 <= j < count ==> valid_value((#[trigger] self@[j]).1),
                block@ == entries(self@.take(i as int)),
                block@.len() < PAYLOAD_SIZE,
            decreases count - i,
        {
            let name = self.variables[i].name.as_slice();
            let value = self.variables[i].value.as_slice();
            let ghost longer = self@.take(i + 1);
            proof {
                assert(longer.drop_last() =~= self@.take(i as int));
                assert(longer.last() == self@[i as int]);
                lemma_entries_grow(self@, i + 1);
            }
            let room = PAYLOAD_SIZE - block.len();
            if name.len() >= room || value.len() >= room - name.len() || value.len() + 2 >= room
                - name.len() {
                return Err(EnvError::TooLarge);
            }
            let ghost before = block@;
            block.extend_from_slice(name);
            block.push(EQUALS);
            block.extend_from_slice(value);
            block.push(NUL);
            assert(block@ =~= before + entry(name@, value@));
            i += 1;
        }
        assert(self@.take(count as int) =~= self@);
        let ghost listed = block@;
        while block.len() < PAYLOAD_SIZE
            invariant
                block@.len() <= PAYLOAD_SIZE,
                listed.len() <= block@.len(),
                block@ == listed + zeros(block@.len() - listed.len()),
            decreases PAYLOAD_SIZE - block.len(),
        {
            let ghost before = block@;
            block.push(NUL);
            assert(block@ =~= listed + zeros(block@.len() - listed.len()));
        }
        assert(block@ == payload_of(self@));
        let ghost payload = block@;
        let checksum = to_le_bytes(crc32(block.as_slice()));
        block.push(checksum[0]);
        block.push(checksum[1]);
        block.push(checksum[2]);
        block.push(checksum[3]);
        assert(block@ =~= payload + le_bytes(crc32_of(payload)));
        Ok(block)
    }

    /// Reads the environment that a block holds. A corrupt block is read as
    /// the empty environment: one of the wrong size, one whose checksum
    /// does not match, one whose payload is no list of variables, and one
    /// that lists a name twice.
    pub fn decode(block: &[u8]) -> (env: UBootEnv)
        ensures
            env@ == decoded(block@),
    {
        if block.len() != ENV_SIZE {
            return UBootEnv::new();
        }
        let payload = slice_subrange(block, 0, PAYLOAD_SIZE);
        let stored = from_le_bytes(
            [
                block[PAYLOAD_SIZE],
                block[PAYLOAD_SIZE + 1],
                block[PAYLOAD_SIZE + 2],
                block[PAYLOAD_SIZE + 3],
            ],
        );
        proof {
            let tail = block@.subrange(PAYLOAD_SIZE as int, ENV_SIZE as int);
            assert(tail[0] == block@[PAYLOAD_SIZE as int]);
            assert(tail[1] == block@[PAYLOAD_SIZE + 1]);
            assert(tail[2] == block@[PAYLOAD_SIZE + 2]);
            assert(tail[3] == block@[PAYLOAD_SIZE + 3]);
        }
        if crc32(payload) != stored {
            return UBootEnv::new();
        }
        let mut variables: Vec<Variable> = Vec::new();
        let mut pos: usize = 0;
        assert(payload@.skip(0) =~= payload@);
        assert(variables_view(variables@) + Seq::empty() =~= Seq::<(Seq<u8>, Seq<u8>)>::empty());
        loop
            invariant
                payload@ == block@.subrange(0, PAYLOAD_SIZE as int),
                block@.len() == ENV_SIZE,
                checksum_matches(block@),
                pos <= PAYLOAD_SIZE,
                distinct_names(variables_view(variables@)),
                parsed(payload@) == joined(
                    variables_view(variables@),
                    parsed(payload@.skip(pos as int)),
                ),
            decreases PAYLOAD_SIZE - pos,
        {
            let ghost rest = payload@.skip(pos as int);
            let ghost listed = variables_view(variables@);
            let end = find_byte(payload, pos, NUL, PAYLOAD_SIZE);
            proof {
                assert(payload@.subrange(pos as int, PAYLOAD_SIZE as int) =~= rest);
                lemma_first_index(rest, NUL, end - pos);
            }
            if end == PAYLOAD_SIZE {
                return UBootEnv::new();
            }
            if end == pos {
                assert(listed + Seq::empty() =~= listed);
                return UBootEnv { variables };
            }
            let split = find_byte(payload, pos, EQUALS, end);
            let ghost text = rest.subrange(0, end - pos);
            proof {
                assert(payload@.subrange(pos as int, end as int) =~= text);
                lemma_first_index(text, EQUALS, split - pos);
            }
            if split == pos || split == end {
                return UBootEnv::new();
            }
            let name = slice_subrange(payload, pos, split);
            let value = slice_subrange(payload, split + 1, end);
            let ghost others = parsed(payload@.skip(end + 1));
            proof {
                assert(text.subrange(0, split - pos) =~= name@);
                assert(text.subrange(split - pos + 1, end - pos) =~= value@);
                assert(rest.skip(end - pos + 1) =~= payload@.skip(end + 1));
                assert(parsed(rest) == match others {
                    Some(more) => Some(seq![(name@, value@)] + more),
                    None => None,
                });
            }
            if position(&variables, name).is_some() {
                proof {
                    if let Some(more) = others {
                        let all = listed + (seq![(name@, value@)] + more);
                        let twin = choose|k: int|
                            0 <= k < listed.len() && (#[trigger] listed[k]).0 == name@;
                        assert(all[twin] == listed[twin]);
                        assert(all[listed.len() as int] == (name@, value@));
                        assert(!distinct_names(all));
                    }
                }
                return UBootEnv::new();
            }
            variables.push(Variable { name: slice_to_vec(name), value: slice_to_vec(value) });
            proof {
                let longer = variables_view(variables@);
                assert(longer =~= listed.push((name@, value@)));
                if let Some(more) = others {
                    assert(longer + more =~= listed + (seq![(name@, value@)] + more));
                }
                assert forall|a: int, b: int| 0 <= a < b < longer.len() implies (
                #[trigger] longer[a]).0 != (#[trigger] longer[b]).0 by {
                    if b == listed.len() {
                        assert(listed[a].0 != name@);
                    } else {
                        assert(listed[a].0 != listed[b].0);
                    }
                }
            }
            pos = end + 1;
        }
    }
}

} // verus!
