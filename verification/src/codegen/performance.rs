use vstd::prelude::*;
use vstd::string::*;

use crate::semantic::ReachablePerformance;
use crate::text::{
    lemma_text_less_irreflexive, lemma_text_less_transitive, message_with_text, owned, push_char,
    text_less, text_lt,
};

verus! {

/// A `perform` method together with the native symbol it is emitted under.
#[derive(Clone, Debug)]
pub struct PerformanceImplementation {
    pub role_name: String,
    pub target_type: String,
    pub method_name: String,
    pub symbol: String,
}

/// The contents of a `PerformanceImplementation`.
pub struct ImplementationView {
    pub role_name: Seq<char>,
    pub target_type: Seq<char>,
    pub method_name: Seq<char>,
    pub symbol: Seq<char>,
}

pub open spec fn implementation_view(implementation: PerformanceImplementation) -> ImplementationView {
    ImplementationView {
        role_name: implementation.role_name@,
        target_type: implementation.target_type@,
        method_name: implementation.method_name@,
        symbol: implementation.symbol@,
    }
}

pub open spec fn implementation_views(implementations: Seq<PerformanceImplementation>) -> Seq<ImplementationView> {
    implementations.map_values(|implementation: PerformanceImplementation| implementation_view(implementation))
}

/// Bytes that a symbol may hold as they are: ASCII letters and digits.
pub open spec fn is_ascii_alphanumeric(byte: u8) -> bool {
    (48 <= byte <= 57) || (65 <= byte <= 90) || (97 <= byte <= 122)
}

/// The lowercase hexadecimal digit for `value`.
pub open spec fn hex_char(value: nat) -> char {
    if value < 10 {
        (48 + value) as char
    } else {
        (87 + value) as char
    }
}

/// A letter or digit stands for itself; any other byte becomes `_` and two lowercase hex digits.
pub open spec fn encode_byte(byte: u8) -> Seq<char> {
    if is_ascii_alphanumeric(byte) {
        seq![byte as char]
    } else {
        seq!['_', hex_char(byte as nat / 16), hex_char(byte as nat % 16)]
    }
}

/// The encoding of a byte string, byte by byte.
pub open spec fn spec_encode(bytes: Seq<u8>) -> Seq<char>
    decreases bytes.len(),
{
    if bytes.len() == 0 {
        Seq::empty()
    } else {
        spec_encode(bytes.drop_last()) + encode_byte(bytes.last())
    }
}

/// The native symbol of the method `method` that `target` performs for role `role`.
pub open spec fn spec_performance_symbol(role: Seq<u8>, target: Seq<u8>, method: Seq<u8>) -> Seq<char> {
    "actus_perf_"@ + spec_encode(role) + "_"@ + spec_encode(target) + "_"@ + spec_encode(method)
}

fn hex_digit(value: u8) -> (c: char)
    requires
        value < 16,
    ensures
        c == hex_char(value as nat),
{
    if value < 10 {
        (48u8 + value) as char
    } else {
        (87u8 + value) as char
    }
}

/// Writes the encoding of `component` after `encoded`.
fn push_encoded(encoded: &mut String, component: &str)
    ensures
        final(encoded)@ == old(encoded)@ + spec_encode(component.spec_bytes()),
{
    let bytes = component.as_bytes();
    let mut index: usize = 0;
    while index < bytes.len()
        invariant
            bytes@ == component.spec_bytes(),
            index <= bytes@.len(),
            encoded@ == old(encoded)@ + spec_encode(bytes@.take(index as int)),
        decreases bytes@.len() - index,
    {
        let byte = bytes[index];
        proof {
            assert(bytes@.take(index + 1).drop_last() =~= bytes@.take(index as int));
        }
        if (48 <= byte && byte <= 57) || (65 <= byte && byte <= 90) || (97 <= byte && byte <= 122) {
            push_char(encoded, byte as char);
            assert(encoded@ =~= old(encoded)@ + spec_encode(bytes@.take(index + 1)));
        } else {
            push_char(encoded, '_');
            push_char(encoded, hex_digit(byte / 16));
            push_char(encoded, hex_digit(byte % 16));
            assert(encoded@ =~= old(encoded)@ + spec_encode(bytes@.take(index + 1)));
        }
        index = index + 1;
    }
    assert(bytes@.take(index as int) =~= bytes@);
}

/// Encodes a name so that it can be part of a native symbol.
pub fn encode_component(component: &str) -> (encoded: String)
    ensures
        encoded@ == spec_encode(component.spec_bytes()),
{
    let mut encoded = String::new();
    push_encoded(&mut encoded, component);
    encoded
}

/// The native symbol of a performance method.
pub fn performance_symbol(role: &str, target: &str, method: &str) -> (symbol: String)
    ensures
        symbol@ == spec_performance_symbol(role.spec_bytes(), target.spec_bytes(), method.spec_bytes()),
{
    let mut symbol = owned("actus_perf_");
    push_encoded(&mut symbol, role);
    push_char(&mut symbol, '_');
    push_encoded(&mut symbol, target);
    push_char(&mut symbol, '_');
    push_encoded(&mut symbol, method);
    proof {
        reveal_strlit("_");
    }
    assert(symbol@ =~= spec_performance_symbol(role.spec_bytes(), target.spec_bytes(), method.spec_bytes()));
    symbol
}

/// `implementations` with `item` placed before the first entry whose symbol sorts after its own.
pub open spec fn insert_by_symbol(implementations: Seq<ImplementationView>, item: ImplementationView) -> Seq<ImplementationView>
    decreases implementations.len(),
{
    if implementations.len() == 0 {
        seq![item]
    } else if text_less(item.symbol, implementations[0].symbol) {
        seq![item] + implementations
    } else {
        seq![implementations[0]] + insert_by_symbol(implementations.drop_first(), item)
    }
}

/// The stable sort of `implementations` by symbol.
pub open spec fn sort_by_symbol(implementations: Seq<ImplementationView>) -> Seq<ImplementationView>
    decreases implementations.len(),
{
    if implementations.len() == 0 {
        implementations
    } else {
        insert_by_symbol(sort_by_symbol(implementations.drop_last()), implementations.last())
    }
}

/// The implementation that a reachable performance is emitted as.
pub open spec fn reachable_view(reachable: ReachablePerformance) -> ImplementationView {
    ImplementationView {
        role_name: reachable.role_name@,
        target_type: reachable.target_type@,
        method_name: reachable.method_name@,
        symbol: spec_performance_symbol(
            vstd::utf8::encode_utf8(reachable.role_name@),
            vstd::utf8::encode_utf8(reachable.target_type@),
            vstd::utf8::encode_utf8(reachable.method_name@),
        ),
    }
}

pub open spec fn reachable_views(reachable: Seq<ReachablePerformance>) -> Seq<ImplementationView> {
    reachable.map_values(|item: ReachablePerformance| reachable_view(item))
}

/// Where insertion puts `item`: after every entry that does not sort after it.
pub proof fn lemma_insert_by_symbol_at(implementations: Seq<ImplementationView>, item: ImplementationView, position: int)
    requires
        0 <= position <= implementations.len(),
        forall|j: int| 0 <= j < position ==> !text_less(item.symbol, #[trigger] implementations[j].symbol),
        position < implementations.len() ==> text_less(item.symbol, implementations[position].symbol),
    ensures
        insert_by_symbol(implementations, item) == implementations.take(position) + seq![item]
            + implementations.skip(position),
    decreases implementations.len(),
{
    if implementations.len() == 0 {
        assert(implementations.take(position) + seq![item] + implementations.skip(position) =~= seq![item]);
    } else if position == 0 {
        assert(implementations.take(0) + seq![item] + implementations.skip(0) =~= seq![item] + implementations);
    } else {
        let rest = implementations.drop_first();
        assert forall|j: int| 0 <= j < position - 1 implies !text_less(item.symbol, #[trigger] rest[j].symbol) by {
            assert(rest[j] == implementations[j + 1]);
        }
        lemma_insert_by_symbol_at(rest, item, position - 1);
        assert(implementations.take(position) + seq![item] + implementations.skip(position) =~= seq![implementations[0]]
            + (rest.take(position - 1) + seq![item] + rest.skip(position - 1)));
    }
}

/// The reachable performances of a program, each with its symbol, in symbol order.
#[derive(Debug)]
pub struct PerformanceRegistry {
    implementations: Vec<PerformanceImplementation>,
}

impl PerformanceRegistry {
    pub closed spec fn view(&self) -> Seq<ImplementationView> {
        implementation_views(self.implementations@)
    }

    /// Gives each reachable performance its symbol and sorts them by symbol; performances with
    /// equal symbols keep their order.
    pub fn from_reachable(reachable: &[ReachablePerformance]) -> (registry: Self)
        ensures
            registry.view() == sort_by_symbol(reachable_views(reachable@)),
    {
        let mut implementations: Vec<PerformanceImplementation> = Vec::new();
        let mut index: usize = 0;
        while index < reachable.len()
            invariant
                index <= reachable@.len(),
                implementation_views(implementations@) == sort_by_symbol(
                    reachable_views(reachable@.take(index as int)),
                ),
            decreases reachable@.len() - index,
        {
            let item = &reachable[index];
            let implementation = PerformanceImplementation {
                role_name: item.role_name.clone(),
                target_type: item.target_type.clone(),
                method_name: item.method_name.clone(),
                symbol: performance_symbol(
                    item.role_name.as_str(),
                    item.target_type.as_str(),
                    item.method_name.as_str(),
                ),
            };
            let ghost sorted = implementation_views(implementations@);
            let mut position: usize = 0;
            while position < implementations.len() && !text_lt(
                implementation.symbol.as_str(),
                implementations[position].symbol.as_str(),
            )
                invariant
                    position <= implementations@.len(),
                    sorted == implementation_views(implementations@),
                    forall|j: int| 0 <= j < position ==> !text_less(implementation.symbol@, #[trigger] sorted[j].symbol),
                decreases implementations@.len() - position,
            {
                position = position + 1;
            }
            proof {
                assert(implementation_view(implementation) == reachable_view(reachable@[index as int]));
                assert(reachable_views(reachable@.take(index + 1)).drop_last() =~= reachable_views(
                    reachable@.take(index as int),
                ));
                lemma_insert_by_symbol_at(sorted, implementation_view(implementation), position as int);
            }
            implementations.insert(position, implementation);
            proof {
                assert(implementation_views(implementations@) =~= sorted.take(position as int) + seq![
                    implementation_view(implementation),
                ] + sorted.skip(position as int));
            }
            index = index + 1;
        }
        assert(reachable@.take(index as int) =~= reachable@);
        PerformanceRegistry { implementations }
    }

    /// Refuses a registry in which two implementations share a symbol.
    pub fn validate(&self) -> (result: Result<(), String>)
        ensures
            result is Ok <==> first_duplicate_symbol(self.view()) == -1,
            result matches Err(message) ==> message@ == "duplicate performance symbol `"@
                + self.view()[first_duplicate_symbol(self.view())].symbol + "`"@,
    {
        let mut index: usize = 0;
        while index < self.implementations.len()
            invariant
                index <= self.view().len(),
                self.view().len() == self.implementations@.len(),
                first_duplicate_symbol(self.view().take(index as int)) == -1,
            decreases self.implementations@.len() - index,
        {
            let symbol = &self.implementations[index].symbol;
            let mut earlier: usize = 0;
            while earlier < index
                invariant
                    index < self.implementations@.len(),
                    earlier <= index,
                    self.view().len() == self.implementations@.len(),
                    symbol@ == self.view()[index as int].symbol,
                    first_duplicate_symbol(self.view().take(index as int)) == -1,
                    forall|j: int| 0 <= j < earlier ==> self.view()[j].symbol != symbol@,
                decreases index - earlier,
            {
                if self.implementations[earlier].symbol == *symbol {
                    proof {
                        lemma_first_duplicate_found(self.view(), index as int, earlier as int);
                    }
                    return Err(message_with_text("duplicate performance symbol `", symbol.as_str(), "`"));
                }
                earlier = earlier + 1;
            }
            proof {
                lemma_first_duplicate_extend(self.view(), index as int);
            }
            index = index + 1;
        }
        assert(self.view().take(index as int) =~= self.view());
        Ok(())
    }

    /// The implementations in symbol order.
    pub fn implementations(&self) -> (implementations: &[PerformanceImplementation])
        ensures
            implementation_views(implementations@) == self.view(),
    {
        self.implementations.as_slice()
    }
}

/// Some earlier entry has the same symbol as the entry at `index`.
pub open spec fn repeats_symbol(implementations: Seq<ImplementationView>, index: int) -> bool {
    exists|j: int| 0 <= j < index && implementations[j].symbol == implementations[index].symbol
}

/// The first position whose symbol repeats an earlier one, or -1.
pub open spec fn first_duplicate_symbol(implementations: Seq<ImplementationView>) -> int
    decreases implementations.len(),
{
    if implementations.len() == 0 {
        -1
    } else if first_duplicate_symbol(implementations.drop_last()) >= 0 {
        first_duplicate_symbol(implementations.drop_last())
    } else if repeats_symbol(implementations, implementations.len() - 1) {
        implementations.len() - 1
    } else {
        -1
    }
}

proof fn lemma_first_duplicate_extend(implementations: Seq<ImplementationView>, index: int)
    requires
        0 <= index < implementations.len(),
        first_duplicate_symbol(implementations.take(index)) == -1,
        forall|j: int| 0 <= j < index ==> implementations[j].symbol != implementations[index].symbol,
    ensures
        first_duplicate_symbol(implementations.take(index + 1)) == -1,
{
    let prefix = implementations.take(index + 1);
    assert(prefix.drop_last() =~= implementations.take(index));
    if repeats_symbol(prefix, index) {
        let j = choose|j: int| 0 <= j < index && prefix[j].symbol == prefix[index].symbol;
        assert(implementations[j].symbol != implementations[index].symbol);
    }
}

proof fn lemma_first_duplicate_found(implementations: Seq<ImplementationView>, index: int, earlier: int)
    requires
        0 <= earlier < index < implementations.len(),
        first_duplicate_symbol(implementations.take(index)) == -1,
        implementations[earlier].symbol == implementations[index].symbol,
    ensures
        first_duplicate_symbol(implementations) == index,
{
    let prefix = implementations.take(index + 1);
    assert(prefix.drop_last() =~= implementations.take(index));
    assert(prefix[earlier].symbol == prefix[index].symbol);
    assert(repeats_symbol(prefix, index));
    lemma_first_duplicate_prefix(implementations, index + 1);
}

/// A duplicate found in a prefix is the first duplicate of the whole sequence.
proof fn lemma_first_duplicate_prefix(implementations: Seq<ImplementationView>, end: int)
    requires
        0 <= end <= implementations.len(),
        first_duplicate_symbol(implementations.take(end)) >= 0,
    ensures
        first_duplicate_symbol(implementations) == first_duplicate_symbol(implementations.take(end)),
    decreases implementations.len() - end,
{
    if end < implementations.len() {
        let longer = implementations.take(end + 1);
        assert(longer.drop_last() =~= implementations.take(end));
        lemma_first_duplicate_prefix(implementations, end + 1);
    } else {
        assert(implementations.take(end) =~= implementations);
    }
}


/// No entry has a symbol that sorts before that of an entry ahead of it.
pub open spec fn sorted_by_symbol(implementations: Seq<ImplementationView>) -> bool {
    forall|i: int, j: int|
        0 <= i < j < implementations.len() ==> !text_less(
            #[trigger] implementations[j].symbol,
            #[trigger] implementations[i].symbol,
        )
}

/// Insertion puts the item at some position, after every entry that does not sort after it
/// and before the first entry that does.
proof fn lemma_insert_shape(implementations: Seq<ImplementationView>, item: ImplementationView) -> (position: int)
    ensures
        0 <= position <= implementations.len(),
        insert_by_symbol(implementations, item) == implementations.insert(position, item),
        forall|j: int| 0 <= j < position ==> !text_less(item.symbol, #[trigger] implementations[j].symbol),
        position < implementations.len() ==> text_less(item.symbol, implementations[position].symbol),
    decreases implementations.len(),
{
    if implementations.len() == 0 {
        assert(implementations.insert(0, item) =~= seq![item]);
        0
    } else if text_less(item.symbol, implementations[0].symbol) {
        assert(implementations.insert(0, item) =~= seq![item] + implementations);
        0
    } else {
        let rest = implementations.drop_first();
        let p = lemma_insert_shape(rest, item);
        assert(seq![implementations[0]] + rest.insert(p, item) =~= implementations.insert(p + 1, item));
        assert forall|j: int| 0 <= j < p + 1 implies !text_less(item.symbol, #[trigger] implementations[j].symbol) by {
            if j > 0 {
                assert(implementations[j] == rest[j - 1]);
            }
        }
        if p < rest.len() {
            assert(implementations[p + 1] == rest[p]);
        }
        p + 1
    }
}

proof fn lemma_insert_sorted(implementations: Seq<ImplementationView>, item: ImplementationView)
    requires
        sorted_by_symbol(implementations),
    ensures
        sorted_by_symbol(insert_by_symbol(implementations, item)),
        insert_by_symbol(implementations, item).len() == implementations.len() + 1,
        insert_by_symbol(implementations, item).to_multiset() == implementations.to_multiset().insert(item),
{
    broadcast use vstd::seq_lib::group_to_multiset_ensures;

    let p = lemma_insert_shape(implementations, item);
    let result = implementations.insert(p, item);
    assert forall|i: int, j: int| 0 <= i < j < result.len() implies !text_less(
        #[trigger] result[j].symbol,
        #[trigger] result[i].symbol,
    ) by {
        if j < p {
            assert(result[i] == implementations[i] && result[j] == implementations[j]);
        } else if j == p {
            assert(result[i] == implementations[i] && result[j] == item);
        } else if i < p {
            assert(result[i] == implementations[i] && result[j] == implementations[j - 1]);
            if i < j - 1 {
                assert(!text_less(implementations[j - 1].symbol, implementations[i].symbol));
            } else {
                lemma_text_less_irreflexive(implementations[i].symbol);
            }
        } else if i == p {
            assert(result[i] == item && result[j] == implementations[j - 1]);
            if text_less(implementations[j - 1].symbol, item.symbol) {
                lemma_text_less_transitive(implementations[j - 1].symbol, item.symbol, implementations[p].symbol);
                if p < j - 1 {
                    assert(!text_less(implementations[j - 1].symbol, implementations[p].symbol));
                } else {
                    lemma_text_less_irreflexive(implementations[p].symbol);
                }
            }
        } else {
            assert(result[i] == implementations[i - 1] && result[j] == implementations[j - 1]);
        }
    }
}

/// Sorting by symbol orders the implementations by symbol and keeps every one of them: the
/// result is sorted, as long as the input, and holds the same implementations, each as often.
pub proof fn law_sort_by_symbol(implementations: Seq<ImplementationView>)
    ensures
        sorted_by_symbol(sort_by_symbol(implementations)),
        sort_by_symbol(implementations).len() == implementations.len(),
        sort_by_symbol(implementations).to_multiset() == implementations.to_multiset(),
    decreases implementations.len(),
{
    broadcast use vstd::seq_lib::group_to_multiset_ensures;

    if implementations.len() > 0 {
        let rest = implementations.drop_last();
        law_sort_by_symbol(rest);
        lemma_insert_sorted(sort_by_symbol(rest), implementations.last());
        assert(rest.push(implementations.last()) =~= implementations);
    } else {
        assert(implementations.to_multiset() =~= sort_by_symbol(implementations).to_multiset());
    }
}


/// Encoding distributes over concatenation.
pub proof fn lemma_encode_concat(a: Seq<u8>, b: Seq<u8>)
    ensures
        spec_encode(a + b) == spec_encode(a) + spec_encode(b),
    decreases b.len(),
{
    if b.len() == 0 {
        assert(a + b =~= a);
        assert(spec_encode(a) + spec_encode(b) =~= spec_encode(a));
    } else {
        lemma_encode_concat(a, b.drop_last());
        assert((a + b).drop_last() =~= a + b.drop_last());
        assert((a + b).last() == b.last());
        assert(spec_encode(a + b) =~= spec_encode(a) + spec_encode(b));
    }
}

proof fn lemma_encode_first(bytes: Seq<u8>)
    requires
        bytes.len() > 0,
    ensures
        spec_encode(bytes) == encode_byte(bytes[0]) + spec_encode(bytes.drop_first()),
{
    assert(seq![bytes[0]] + bytes.drop_first() =~= bytes);
    lemma_encode_concat(seq![bytes[0]], bytes.drop_first());
    assert(seq![bytes[0]].drop_last() =~= Seq::<u8>::empty());
    assert(seq![bytes[0]].last() == bytes[0]);
    assert(spec_encode(Seq::<u8>::empty()) =~= Seq::<char>::empty());
    assert(spec_encode(seq![bytes[0]]) =~= encode_byte(bytes[0]));
}

proof fn lemma_hex_char_injective(a: nat, b: nat)
    requires
        a < 16,
        b < 16,
        hex_char(a) == hex_char(b),
    ensures
        a == b,
{
    assert((hex_char(a) as u32) == (if a < 10 { 48 + a } else { 87 + a }));
    assert((hex_char(b) as u32) == (if b < 10 { 48 + b } else { 87 + b }));
}

proof fn lemma_encode_byte_injective(a: u8, b: u8)
    requires
        encode_byte(a)[0] == encode_byte(b)[0],
        encode_byte(a).len() == encode_byte(b).len(),
        encode_byte(a).len() == 1 || (encode_byte(a)[1] == encode_byte(b)[1] && encode_byte(a)[2] == encode_byte(b)[2]),
    ensures
        a == b,
{
    assert(('_' as u32) == 95);
    if is_ascii_alphanumeric(a) && is_ascii_alphanumeric(b) {
        assert((a as char) as u32 == a);
        assert((b as char) as u32 == b);
    } else if !is_ascii_alphanumeric(a) && !is_ascii_alphanumeric(b) {
        lemma_hex_char_injective(a as nat / 16, b as nat / 16);
        lemma_hex_char_injective(a as nat % 16, b as nat % 16);
    } else if is_ascii_alphanumeric(a) {
        assert((a as char) as u32 == a);
    } else {
        assert((b as char) as u32 == b);
    }
}

/// Encoding never maps two different byte strings to the same text.
pub proof fn law_encode_injective(a: Seq<u8>, b: Seq<u8>)
    requires
        spec_encode(a) == spec_encode(b),
    ensures
        a == b,
    decreases a.len(),
{
    if a.len() == 0 {
        if b.len() > 0 {
            lemma_encode_first(b);
        }
        assert(a =~= b);
    } else {
        lemma_encode_first(a);
        if b.len() == 0 {
            assert(spec_encode(b).len() == 0);
            assert(encode_byte(a[0]).len() >= 1);
            assert(false);
        }
        lemma_encode_first(b);
        let ea = encode_byte(a[0]);
        let eb = encode_byte(b[0]);
        assert(spec_encode(a)[0] == ea[0] && spec_encode(b)[0] == eb[0]);
        assert(('_' as u32) == 95);
        if is_ascii_alphanumeric(a[0]) {
            assert((a[0] as char) as u32 == a[0]);
        }
        if is_ascii_alphanumeric(b[0]) {
            assert((b[0] as char) as u32 == b[0]);
        }
        assert(ea.len() == eb.len());
        if ea.len() == 3 {
            assert(spec_encode(a)[1] == ea[1] && spec_encode(b)[1] == eb[1]);
            assert(spec_encode(a)[2] == ea[2] && spec_encode(b)[2] == eb[2]);
        }
        lemma_encode_byte_injective(a[0], b[0]);
        assert(spec_encode(a.drop_first()) =~= spec_encode(a).skip(ea.len() as int));
        assert(spec_encode(b.drop_first()) =~= spec_encode(b).skip(eb.len() as int));
        law_encode_injective(a.drop_first(), b.drop_first());
        assert(a =~= seq![a[0]] + a.drop_first());
        assert(b =~= seq![b[0]] + b.drop_first());
    }
}

/// Symbols that agree in everything but one name differ in that name: two performances that
/// differ only in their role, only in their target type, or only in their method get
/// different symbols. (Performances that differ in two names at once can collide, since the
/// separator `_` may also begin an encoded byte.)
pub proof fn law_symbol_distinguishes_each_name(
    role: Seq<u8>,
    target: Seq<u8>,
    method: Seq<u8>,
    other_role: Seq<u8>,
    other_target: Seq<u8>,
    other_method: Seq<u8>,
)
    requires
        spec_performance_symbol(role, target, method) == spec_performance_symbol(other_role, other_target, other_method),
    ensures
        role == other_role && method == other_method ==> target == other_target,
        role == other_role && target == other_target ==> method == other_method,
        target == other_target && method == other_method ==> role == other_role,
{
    let symbol = spec_performance_symbol(role, target, method);
    let prefix = "actus_perf_"@;
    let separator = "_"@;
    if role == other_role && method == other_method {
        let head = prefix + spec_encode(role) + separator;
        let tail = separator + spec_encode(method);
        assert(symbol =~= head + spec_encode(target) + tail);
        assert(symbol =~= head + spec_encode(other_target) + tail);
        assert(spec_encode(target) =~= symbol.subrange(head.len() as int, symbol.len() - tail.len()));
        assert(spec_encode(other_target) =~= symbol.subrange(head.len() as int, symbol.len() - tail.len()));
        law_encode_injective(target, other_target);
    }
    if role == other_role && target == other_target {
        let head = prefix + spec_encode(role) + separator + spec_encode(target) + separator;
        assert(symbol =~= head + spec_encode(method));
        assert(symbol =~= head + spec_encode(other_method));
        assert(spec_encode(method) =~= symbol.skip(head.len() as int));
        assert(spec_encode(other_method) =~= symbol.skip(head.len() as int));
        law_encode_injective(method, other_method);
    }
    if target == other_target && method == other_method {
        let tail = separator + spec_encode(target) + separator + spec_encode(method);
        assert(symbol =~= prefix + spec_encode(role) + tail);
        assert(symbol =~= prefix + spec_encode(other_role) + tail);
        assert(spec_encode(role) =~= symbol.subrange(prefix.len() as int, symbol.len() - tail.len()));
        assert(spec_encode(other_role) =~= symbol.subrange(prefix.len() as int, symbol.len() - tail.len()));
        law_encode_injective(role, other_role);
    }
}


/// A registry passes validation exactly when no two of its implementations share a symbol.
pub proof fn law_validate_means_distinct_symbols(implementations: Seq<ImplementationView>)
    ensures
        first_duplicate_symbol(implementations) == -1 <==> forall|i: int, j: int|
            0 <= i < j < implementations.len() ==> #[trigger] implementations[i].symbol != #[trigger] implementations[j].symbol,
    decreases implementations.len(),
{
    if implementations.len() > 0 {
        let rest = implementations.drop_last();
        law_validate_means_distinct_symbols(rest);
        let last = implementations.len() - 1;
        if first_duplicate_symbol(implementations) == -1 {
            assert forall|i: int, j: int| 0 <= i < j < implementations.len() implies #[trigger] implementations[i].symbol
                != #[trigger] implementations[j].symbol by {
                if j < last {
                    assert(rest[i] == implementations[i] && rest[j] == implementations[j]);
                } else if implementations[i].symbol == implementations[j].symbol {
                    assert(repeats_symbol(implementations, last));
                }
            }
        } else if first_duplicate_symbol(rest) >= 0 {
            let (i, j) = choose|i: int, j: int| 0 <= i < j < rest.len() && #[trigger] rest[i].symbol == #[trigger] rest[j].symbol;
            assert(implementations[i] == rest[i] && implementations[j] == rest[j]);
        } else {
            let i = choose|i: int| 0 <= i < last && implementations[i].symbol == implementations[last].symbol;
            assert(implementations[i].symbol == implementations[last].symbol);
        }
    }
}

} // verus!
