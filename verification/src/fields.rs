//! The fields that a span carries into every log line written under it.

use crate::trace::{child_of, rand_u64, text_of, OpenTrace, TraceView};
use vstd::prelude::*;
use vstd::string::StringExecFns;

verus! {

/// Name of the field that holds the trace id.
pub const TRACE_ID: &'static str = "trace_id";

/// Name of the field that holds the span id.
pub const SPAN_ID: &'static str = "span_id";

/// Name of the field that holds the id of the parent span.
pub const PARENT_SPAN_ID: &'static str = "parent_span_id";

/// Name of the field that is kept free for the caller.
pub const PADDING: &'static str = "padding";

/// The four fields that every span has, in the order in which they are
/// written.
pub open spec fn default_keys() -> Seq<Seq<char>> {
    seq![TRACE_ID@, SPAN_ID@, PARENT_SPAN_ID@, PADDING@]
}

/// The texts of a list of strings.
pub open spec fn texts(names: Seq<String>) -> Seq<Seq<char>> {
    Seq::new(names.len(), |i: int| names[i]@)
}

/// The stored values after `value` was recorded under `name`: only a name
/// among `keys` is stored, and a later value replaces an earlier one.
pub open spec fn recorded(
    keys: Seq<Seq<char>>,
    data: Map<Seq<char>, Seq<char>>,
    name: Seq<char>,
    value: Seq<char>,
) -> Map<Seq<char>, Seq<char>> {
    if keys.contains(name) {
        data.insert(name, value)
    } else {
        data
    }
}

/// What is written for `key`: its value, or nothing where it has none.
pub open spec fn field_text(data: Map<Seq<char>, Seq<char>>, key: Seq<char>) -> Seq<char> {
    if data.dom().contains(key) {
        data[key]
    } else {
        Seq::empty()
    }
}

/// The fields as they stand in a log line: one position for each key, in
/// order, with a comma between two positions.
pub open spec fn rendered(keys: Seq<Seq<char>>, data: Map<Seq<char>, Seq<char>>) -> Seq<char>
    decreases keys.len(),
{
    if keys.len() == 0 {
        Seq::empty()
    } else if keys.len() == 1 {
        field_text(data, keys[0])
    } else {
        rendered(keys.drop_last(), data) + seq![','] + field_text(data, keys.last())
    }
}

/// Whether position `i` holds a value for `key`.
spec fn holds(
    keys: Seq<Seq<char>>,
    slots: Seq<Option<Seq<char>>>,
    key: Seq<char>,
    i: int,
) -> bool {
    0 <= i < keys.len() && keys[i] == key && slots[i] is Some
}

/// The mapping that positions with a value stand for.
spec fn slot_map(keys: Seq<Seq<char>>, slots: Seq<Option<Seq<char>>>) -> Map<
    Seq<char>,
    Seq<char>,
> {
    Map::new(
        |key: Seq<char>| exists|i: int| holds(keys, slots, key, i),
        |key: Seq<char>| slots[choose|i: int| holds(keys, slots, key, i)]->0,
    )
}

/// One position for each key, and equal keys hold equal values.
spec fn slots_agree(keys: Seq<Seq<char>>, slots: Seq<Option<Seq<char>>>) -> bool {
    &&& keys.len() == slots.len()
    &&& forall|i: int, j: int|
        0 <= i < keys.len() && 0 <= j < keys.len() && keys[i] == keys[j] ==> slots[i] == slots[j]
}

/// Under agreement, a position says what the mapping holds for its key.
proof fn lemma_slot_map_at(keys: Seq<Seq<char>>, slots: Seq<Option<Seq<char>>>, i: int)
    requires
        slots_agree(keys, slots),
        0 <= i < keys.len(),
    ensures
        slot_map(keys, slots).dom().contains(keys[i]) == slots[i] is Some,
        slots[i] matches Some(v) ==> slot_map(keys, slots)[keys[i]] == v,
        field_text(slot_map(keys, slots), keys[i]) == match slots[i] {
            Some(v) => v,
            None => Seq::empty(),
        },
{
    let key = keys[i];
    if slots[i] is Some {
        assert(holds(keys, slots, key, i));
        let c = choose|c: int| holds(keys, slots, key, c);
        assert(slots[c] == slots[i]);
    } else {
        if exists|c: int| holds(keys, slots, key, c) {
            let c = choose|c: int| holds(keys, slots, key, c);
            assert(slots[c] == slots[i]);
        }
    }
}

/// The positions after `value` was recorded under `name`.
spec fn slots_recorded(
    keys: Seq<Seq<char>>,
    slots: Seq<Option<Seq<char>>>,
    name: Seq<char>,
    value: Seq<char>,
) -> Seq<Option<Seq<char>>> {
    Seq::new(
        keys.len(),
        |i: int|
            if keys[i] == name {
                Some(value)
            } else {
                slots[i]
            },
    )
}

/// Writing a value into every position of a key is recording it in the
/// mapping.
proof fn lemma_slots_recorded(
    keys: Seq<Seq<char>>,
    slots: Seq<Option<Seq<char>>>,
    name: Seq<char>,
    value: Seq<char>,
)
    requires
        slots_agree(keys, slots),
    ensures
        slots_agree(keys, slots_recorded(keys, slots, name, value)),
        slot_map(keys, slots_recorded(keys, slots, name, value)) == recorded(
            keys,
            slot_map(keys, slots),
            name,
            value,
        ),
{
    let after = slots_recorded(keys, slots, name, value);
    let before_map = slot_map(keys, slots);
    let after_map = slot_map(keys, after);
    let want = recorded(keys, before_map, name, value);
    assert(slots_agree(keys, after));
    assert forall|key: Seq<char>| after_map.dom().contains(key) == want.dom().contains(key) by {
        if after_map.dom().contains(key) {
            let i = choose|i: int| holds(keys, after, key, i);
            assert(holds(keys, after, key, i));
            if key != name {
                assert(holds(keys, slots, key, i));
            } else {
                assert(keys.contains(name));
            }
        }
        if want.dom().contains(key) {
            if keys.contains(name) && key == name {
                let i = choose|i: int| 0 <= i < keys.len() && keys[i] == name;
                assert(holds(keys, after, key, i));
            } else {
                let i = choose|i: int| holds(keys, slots, key, i);
                assert(holds(keys, slots, key, i));
                assert(holds(keys, after, key, i));
            }
        }
    }
    assert forall|key: Seq<char>| #[trigger] after_map.dom().contains(key) implies after_map[key]
        == want[key] by {
        let i = choose|i: int| holds(keys, after, key, i);
        assert(holds(keys, after, key, i));
        lemma_slot_map_at(keys, after, i);
        if key != name {
            assert(holds(keys, slots, key, i));
            lemma_slot_map_at(keys, slots, i);
        }
    }
    assert(after_map =~= want);
}

/// The texts of a list of name and value pairs.
pub open spec fn pairs(entries: Seq<(String, String)>) -> Seq<(Seq<char>, Seq<char>)> {
    Seq::new(entries.len(), |i: int| (entries[i].0@, entries[i].1@))
}

/// The stored values after each of `entries` was recorded in turn.
pub open spec fn recorded_all(
    keys: Seq<Seq<char>>,
    data: Map<Seq<char>, Seq<char>>,
    entries: Seq<(Seq<char>, Seq<char>)>,
) -> Map<Seq<char>, Seq<char>>
    decreases entries.len(),
{
    if entries.len() == 0 {
        data
    } else {
        recorded(
            keys,
            recorded_all(keys, data, entries.drop_last()),
            entries.last().0,
            entries.last().1,
        )
    }
}

/// The trace context that a span's fields spell out, if they hold both a
/// trace id and a span id.
pub open spec fn context_of(data: Map<Seq<char>, Seq<char>>) -> Option<TraceView> {
    if data.dom().contains(TRACE_ID@) && data.dom().contains(SPAN_ID@) {
        Some(
            TraceView {
                trace_id: data[TRACE_ID@],
                span_id: data[SPAN_ID@],
                parent_span_id: field_text(data, PARENT_SPAN_ID@),
            },
        )
    } else {
        None
    }
}

/// How often `c` occurs in `s`.
pub open spec fn count_char(s: Seq<char>, c: char) -> nat
    decreases s.len(),
{
    if s.len() == 0 {
        0
    } else {
        count_char(s.drop_last(), c) + if s.last() == c {
            1nat
        } else {
            0nat
        }
    }
}

/// Counting over a concatenation adds up.
pub proof fn lemma_count_char_concat(a: Seq<char>, b: Seq<char>, c: char)
    ensures
        count_char(a + b, c) == count_char(a, c) + count_char(b, c),
    decreases b.len(),
{
    if b.len() == 0 {
        assert(a + b =~= a);
    } else {
        lemma_count_char_concat(a, b.drop_last(), c);
        assert((a + b).drop_last() =~= a + b.drop_last());
        assert((a + b).last() == b.last());
    }
}

/// With no comma inside a value, the rendered fields hold one comma less
/// than there are keys, whichever keys have a value.
pub proof fn lemma_rendered_commas(keys: Seq<Seq<char>>, data: Map<Seq<char>, Seq<char>>)
    requires
        keys.len() >= 1,
        forall|key: Seq<char>| #[trigger]
            data.dom().contains(key) ==> count_char(data[key], ',') == 0,
    ensures
        count_char(rendered(keys, data), ',') == keys.len() - 1,
    decreases keys.len(),
{
    assert(count_char(Seq::<char>::empty(), ',') == 0);
    if keys.len() == 1 {
        assert(count_char(field_text(data, keys[0]), ',') == 0);
    } else {
        lemma_rendered_commas(keys.drop_last(), data);
        let head = rendered(keys.drop_last(), data);
        let last = field_text(data, keys.last());
        assert(count_char(last, ',') == 0);
        assert(seq![','].drop_last() =~= Seq::<char>::empty());
        assert(count_char(seq![','], ',') == 1);
        lemma_count_char_concat(head, seq![','], ',');
        lemma_count_char_concat(head + seq![','], last, ',');
    }
}

/// The field bag of one live span: the keys that are written, in order, and
/// the values recorded so far.
pub struct ExtendedLog {
    keys: Vec<String>,
    values: Vec<Option<String>>,
}

/// The keys of a field bag and the values it holds.
pub struct FieldsView {
    pub keys: Seq<Seq<char>>,
    pub data: Map<Seq<char>, Seq<char>>,
}

impl View for ExtendedLog {
    type V = FieldsView;

    open spec fn view(&self) -> FieldsView {
        FieldsView { keys: self.keys(), data: self.data() }
    }
}

impl ExtendedLog {
    /// The keys, in the order in which they are written.
    pub closed spec fn keys(&self) -> Seq<Seq<char>> {
        texts(self.keys@)
    }

    /// The value at each position.
    spec fn slots(&self) -> Seq<Option<Seq<char>>> {
        Seq::new(self.values@.len(), |i: int| text_of(self.values@[i]))
    }

    /// The values recorded so far, by key.
    pub closed spec fn data(&self) -> Map<Seq<char>, Seq<char>> {
        slot_map(self.keys(), self.slots())
    }

    /// The bag is well formed: the keys begin with the four default keys,
    /// and where a key occurs twice both places hold the same value.
    pub closed spec fn wf(&self) -> bool {
        &&& slots_agree(self.keys(), self.slots())
        &&& default_keys().is_prefix_of(self.keys())
    }

    /// What well-formedness means for the keys and the values.
    pub proof fn lemma_wf(&self)
        requires
            self.wf(),
        ensures
            default_keys().is_prefix_of(self.keys()),
            self.keys().len() >= 4,
            forall|key: Seq<char>| #[trigger]
                self.data().dom().contains(key) ==> self.keys().contains(key),
    {
        assert forall|key: Seq<char>| #[trigger]
            self.data().dom().contains(key) implies self.keys().contains(key) by {
            let i = choose|i: int| holds(self.keys(), self.slots(), key, i);
            assert(self.keys()[i] == key);
        }
    }

    /// A bag with the four default keys, followed by `extend_fields` in
    /// their order, and no value yet.
    pub fn with_fields(extend_fields: &Vec<String>) -> (r: Self)
        ensures
            r.wf(),
            r.keys() == default_keys() + texts(extend_fields@),
            r.data() == Map::<Seq<char>, Seq<char>>::empty(),
    {
        let mut keys: Vec<String> = Vec::new();
        let mut values: Vec<Option<String>> = Vec::new();
        keys.push(TRACE_ID.to_owned());
        keys.push(SPAN_ID.to_owned());
        keys.push(PARENT_SPAN_ID.to_owned());
        keys.push(PADDING.to_owned());
        values.push(None);
        values.push(None);
        values.push(None);
        values.push(None);
        assert(texts(keys@) =~= default_keys());
        let mut i: usize = 0;
        while i < extend_fields.len()
            invariant
                i <= extend_fields.len(),
                texts(keys@) == default_keys() + texts(extend_fields@.take(i as int)),
                values@.len() == keys@.len(),
                forall|j: int| 0 <= j < values@.len() ==> values@[j] is None,
            decreases extend_fields.len() - i,
        {
            let ghost keys_before = keys@;
            keys.push(extend_fields[i].clone());
            values.push(None);
            proof {
                let before = extend_fields@.take(i as int);
                let after = extend_fields@.take(i + 1);
                let name = extend_fields@[i as int]@;
                assert(texts(after) =~= texts(before).push(name));
                assert(texts(keys@) =~= texts(keys_before).push(name));
                assert(texts(keys@) =~= default_keys() + texts(after));
            }
            i = i + 1;
        }
        let r = ExtendedLog { keys, values };
        proof {
            assert(extend_fields@.take(i as int) =~= extend_fields@);
            assert(r.data() =~= Map::<Seq<char>, Seq<char>>::empty());
        }
        r
    }
}

impl ExtendedLog {
    /// Stores `value` under `name` if `name` is one of the keys, in place of
    /// any earlier value; a name that is no key is dropped.
    pub fn record_debug(&mut self, name: &str, value: String)
        requires
            old(self).wf(),
        ensures
            final(self).wf(),
            final(self).keys() == old(self).keys(),
            final(self).data() == recorded(old(self).keys(), old(self).data(), name@, value@),
    {
        let owned = name.to_owned();
        let ghost keys = self.keys();
        let ghost slots = self.slots();
        let ghost want = slots_recorded(keys, slots, name@, value@);
        let mut i: usize = 0;
        while i < self.keys.len()
            invariant
                i <= self.keys@.len(),
                self.keys@ == old(self).keys@,
                self.values@.len() == self.keys@.len(),
                keys == texts(self.keys@),
                keys.len() == slots.len(),
                owned@ == name@,
                want == slots_recorded(keys, slots, name@, value@),
                forall|j: int| 0 <= j < i ==> text_of(#[trigger] self.values@[j]) == want[j],
                forall|j: int|
                    i <= j < self.values@.len() ==> text_of(#[trigger] self.values@[j])
                        == slots[j],
            decreases self.keys@.len() - i,
        {
            if self.keys[i] == owned {
                self.values.set(i, Some(value.clone()));
            }
            i = i + 1;
        }
        proof {
            assert(self.slots() =~= want);
            lemma_slots_recorded(keys, slots, name@, value@);
        }
    }

    /// Records each of `entries` in turn, as `record_debug` does.
    pub fn record_all(&mut self, entries: &Vec<(String, String)>)
        requires
            old(self).wf(),
        ensures
            final(self).wf(),
            final(self).keys() == old(self).keys(),
            final(self).data() == recorded_all(
                old(self).keys(),
                old(self).data(),
                pairs(entries@),
            ),
    {
        let mut i: usize = 0;
        while i < entries.len()
            invariant
                i <= entries@.len(),
                self.wf(),
                self.keys() == old(self).keys(),
                self.data() == recorded_all(
                    old(self).keys(),
                    old(self).data(),
                    pairs(entries@.take(i as int)),
                ),
            decreases entries@.len() - i,
        {
            proof {
                let next = pairs(entries@.take(i + 1));
                assert(next.drop_last() =~= pairs(entries@.take(i as int)));
                assert(next.last() == (entries@[i as int].0@, entries@[i as int].1@));
            }
            self.record_debug(entries[i].0.as_str(), entries[i].1.clone());
            i = i + 1;
        }
        proof {
            assert(entries@.take(i as int) =~= entries@);
        }
    }

    /// The value stored under `name`, if there is one.
    pub fn get(&self, name: &str) -> (r: Option<String>)
        requires
            self.wf(),
        ensures
            r is Some == self.data().dom().contains(name@),
            r matches Some(v) ==> v@ == self.data()[name@],
    {
        let owned = name.to_owned();
        let mut i: usize = 0;
        while i < self.keys.len()
            invariant
                i <= self.keys@.len(),
                self.wf(),
                owned@ == name@,
                forall|j: int| 0 <= j < i ==> self.keys()[j] != name@,
            decreases self.keys@.len() - i,
        {
            if self.keys[i] == owned {
                proof {
                    lemma_slot_map_at(self.keys(), self.slots(), i as int);
                }
                return match &self.values[i] {
                    Some(v) => Some(v.clone()),
                    None => None,
                };
            }
            i = i + 1;
        }
        proof {
            if self.data().dom().contains(name@) {
                let j = choose|j: int| holds(self.keys(), self.slots(), name@, j);
                assert(self.keys()[j] == name@);
            }
        }
        None
    }

    /// The fields as they stand in a log line: the value of each key in
    /// order, nothing for a key without a value, and a comma between two
    /// positions.
    pub fn to_string(&self) -> (r: String)
        requires
            self.wf(),
        ensures
            r@ == rendered(self.keys(), self.data()),
    {
        let mut out = String::new();
        let mut i: usize = 0;
        while i < self.keys.len()
            invariant
                i <= self.keys@.len(),
                self.wf(),
                out@ == rendered(self.keys().take(i as int), self.data()),
            decreases self.keys@.len() - i,
        {
            let ghost head = self.keys().take(i as int);
            let ghost next = self.keys().take(i + 1);
            proof {
                lemma_slot_map_at(self.keys(), self.slots(), i as int);
                assert(next.drop_last() =~= head);
                assert(next.last() == self.keys()[i as int]);
            }
            if i > 0 {
                out.push(',');
            }
            match &self.values[i] {
                Some(v) => {
                    out.append(v.as_str());
                },
                None => {
                    assert(out@ + Seq::<char>::empty() =~= out@);
                },
            }
            proof {
                let text = field_text(self.data(), self.keys()[i as int]);
                if i == 0 {
                    assert(Seq::<char>::empty() + text =~= text);
                } else {
                    assert(rendered(head, self.data()).push(',') =~= rendered(head, self.data())
                        + seq![',']);
                }
            }
            i = i + 1;
        }
        proof {
            assert(self.keys().take(i as int) =~= self.keys());
        }
        out
    }
}

/// The trace id of the current span: the value of its `trace_id` field.
/// There is none outside any span and in a span without that field.
pub fn current_trace_id(current: Option<&ExtendedLog>) -> (r: Option<String>)
    requires
        current matches Some(fields) ==> fields.wf(),
    ensures
        r is Some == (current matches Some(fields) && fields.data().dom().contains(TRACE_ID@)),
        r matches Some(id) ==> id@ == current->0.data()[TRACE_ID@],
{
    match current {
        Some(fields) => fields.get(TRACE_ID),
        None => None,
    }
}

/// The context of a child of the current span whose own id is `span_id`:
/// the trace id is the current span's, the parent is the current span. There
/// is none outside any span and in a span that lacks either id.
pub fn child_span_with(current: Option<&ExtendedLog>, span_id: u64) -> (r: Option<OpenTrace>)
    requires
        current matches Some(fields) ==> fields.wf(),
    ensures
        r is Some == (current matches Some(fields) && context_of(fields.data()) is Some),
        r matches Some(child) ==> child@ == child_of(context_of(current->0.data())->0, span_id),
{
    match current {
        Some(fields) => {
            match fields.get(TRACE_ID) {
                Some(trace_id) => {
                    match fields.get(SPAN_ID) {
                        Some(parent_span_id) => Some(
                            OpenTrace { trace_id, span_id: crate::hex::u64_hex(span_id), parent_span_id },
                        ),
                        None => None,
                    }
                },
                None => None,
            }
        },
        None => None,
    }
}

/// The context for a child of the current span, with a freshly drawn span
/// id. The fields of the current span are left as they are.
pub fn new_child_span(current: Option<&ExtendedLog>) -> (r: Option<OpenTrace>)
    requires
        current matches Some(fields) ==> fields.wf(),
    ensures
        r is Some == (current matches Some(fields) && context_of(fields.data()) is Some),
        r matches Some(child) ==> {
            &&& exists|span_id: u64|
                child@ == child_of(context_of(current->0.data())->0, span_id)
            &&& child@.trace_id == current->0.data()[TRACE_ID@]
            &&& child@.parent_span_id == current->0.data()[SPAN_ID@]
        },
{
    child_span_with(current, rand_u64())
}

impl Default for ExtendedLog {
    /// A bag with the four default keys and no value.
    fn default() -> (r: Self)
        ensures
            r.wf(),
            r.keys() == default_keys(),
            r.data() == Map::<Seq<char>, Seq<char>>::empty(),
    {
        let none: Vec<String> = Vec::new();
        let r = ExtendedLog::with_fields(&none);
        assert(texts(none@) =~= Seq::<Seq<char>>::empty());
        assert(default_keys() + Seq::<Seq<char>>::empty() =~= default_keys());
        r
    }
}

} // verus!
