//! The store of the containers that values share, and the display form of
//! values.
//!
//! The display form of a number is not computed here: a rendering takes the
//! texts of the numbers it meets, in the order in which it meets them.

use vstd::prelude::*;
use crate::value::{PumpkinValue, ValueModel, values_model, values_model_update};

verus! {

/// How many levels of containers a rendering enters. A container below that
/// is shown as `[...]` or `{...}`, as is one whose handle the heap lacks.
pub const MAX_RENDER_DEPTH: usize = 32;

/// One entry of an object.
#[derive(Debug, PartialEq)]
pub struct ObjectField {
    pub name: String,
    pub value: PumpkinValue,
}

pub struct FieldModel {
    pub name: Seq<char>,
    pub value: ValueModel,
}

/// Lists and objects, each found by its handle: its index here.
#[derive(Debug, PartialEq)]
pub struct Heap {
    pub lists: Vec<Vec<PumpkinValue>>,
    pub objects: Vec<Vec<ObjectField>>,
}

pub struct HeapModel {
    pub lists: Seq<Seq<ValueModel>>,
    pub objects: Seq<Seq<FieldModel>>,
}

pub open spec fn fields_model(s: Seq<ObjectField>) -> Seq<FieldModel> {
    Seq::new(s.len(), |i: int| FieldModel { name: s[i].name@, value: s[i].value@ })
}

pub open spec fn lists_model(s: Seq<Vec<PumpkinValue>>) -> Seq<Seq<ValueModel>> {
    Seq::new(s.len(), |i: int| values_model(s[i]@))
}

pub open spec fn objects_model(s: Seq<Vec<ObjectField>>) -> Seq<Seq<FieldModel>> {
    Seq::new(s.len(), |i: int| fields_model(s[i]@))
}

impl View for Heap {
    type V = HeapModel;

    open spec fn view(&self) -> HeapModel {
        HeapModel { lists: lists_model(self.lists@), objects: objects_model(self.objects@) }
    }
}

/// The value of the first field named `name`.
pub open spec fn lookup_field(fields: Seq<FieldModel>, name: Seq<char>) -> Option<ValueModel>
    decreases fields.len(),
{
    if fields.len() == 0 {
        None
    } else if fields[0].name == name {
        Some(fields[0].value)
    } else {
        lookup_field(fields.drop_first(), name)
    }
}

impl HeapModel {
    pub open spec fn empty() -> HeapModel {
        HeapModel { lists: Seq::empty(), objects: Seq::empty() }
    }

    /// The heap with one more list, under the handle `self.lists.len()`.
    pub open spec fn with_list(self, items: Seq<ValueModel>) -> HeapModel {
        HeapModel { lists: self.lists.push(items), ..self }
    }

    /// The heap with one more object, under the handle `self.objects.len()`.
    pub open spec fn with_object(self, fields: Seq<FieldModel>) -> HeapModel {
        HeapModel { objects: self.objects.push(fields), ..self }
    }

    /// The heap after a store into a list.
    pub open spec fn store(self, handle: int, index: int, value: ValueModel) -> HeapModel {
        HeapModel { lists: self.lists.update(handle, self.lists[handle].update(index, value)), ..self }
    }

    pub open spec fn has_list(self, handle: usize) -> bool {
        handle < self.lists.len()
    }

    pub open spec fn has_object(self, handle: usize) -> bool {
        handle < self.objects.len()
    }
}

/// What is left of `texts` behind its first `n`.
pub open spec fn texts_from(texts: Seq<Seq<char>>, n: nat) -> Seq<Seq<char>> {
    if n <= texts.len() {
        texts.skip(n as int)
    } else {
        Seq::empty()
    }
}

/// The numbers that a rendering of `v` asks a text for, in order.
pub open spec fn number_leaves(v: ValueModel, heap: HeapModel, depth: nat) -> Seq<u64>
    decreases depth, 0nat,
{
    match v {
        ValueModel::Number(n) => seq![n],
        ValueModel::List(h) => if depth > 0 && heap.has_list(h) {
            item_leaves(heap.lists[h as int], heap, (depth - 1) as nat)
        } else {
            Seq::empty()
        },
        ValueModel::Object(h) => if depth > 0 && heap.has_object(h) {
            field_leaves(heap.objects[h as int], heap, (depth - 1) as nat)
        } else {
            Seq::empty()
        },
        _ => Seq::empty(),
    }
}

/// The numbers of the items of a list, first item first.
pub open spec fn item_leaves(items: Seq<ValueModel>, heap: HeapModel, depth: nat) -> Seq<u64>
    decreases depth, 1 + items.len(),
{
    if items.len() == 0 {
        Seq::empty()
    } else {
        item_leaves(items.drop_last(), heap, depth) + number_leaves(items.last(), heap, depth)
    }
}

/// The numbers of the values of an object's fields, first field first.
pub open spec fn field_leaves(fields: Seq<FieldModel>, heap: HeapModel, depth: nat) -> Seq<u64>
    decreases depth, 1 + fields.len(),
{
    if fields.len() == 0 {
        Seq::empty()
    } else {
        field_leaves(fields.drop_last(), heap, depth) + number_leaves(
            fields.last().value,
            heap,
            depth,
        )
    }
}

/// The display form of `v`. A number shows as the next of `texts` (as
/// nothing once they are used up), a string in double quotes, a list as
/// `[a, b]`, an object as `{k: v, l: w}` in the order of its fields.
pub open spec fn render(v: ValueModel, heap: HeapModel, depth: nat, texts: Seq<Seq<char>>) -> Seq<
    char,
>
    decreases depth, 0nat,
{
    match v {
        ValueModel::Number(_) => if texts.len() > 0 {
            texts[0]
        } else {
            Seq::empty()
        },
        ValueModel::Str(s) => "\""@ + s + "\""@,
        ValueModel::Boolean(b) => if b {
            "true"@
        } else {
            "false"@
        },
        ValueModel::Null => "null"@,
        ValueModel::Function(f) => "<function "@ + f.name + ">"@,
        ValueModel::List(h) => if depth > 0 && heap.has_list(h) {
            "["@ + render_items(heap.lists[h as int], heap, (depth - 1) as nat, texts) + "]"@
        } else {
            "[...]"@
        },
        ValueModel::Object(h) => if depth > 0 && heap.has_object(h) {
            "{"@ + render_fields(heap.objects[h as int], heap, (depth - 1) as nat, texts) + "}"@
        } else {
            "{...}"@
        },
    }
}

/// The items of a list, separated by `, `.
pub open spec fn render_items(
    items: Seq<ValueModel>,
    heap: HeapModel,
    depth: nat,
    texts: Seq<Seq<char>>,
) -> Seq<char>
    decreases depth, 1 + items.len(),
{
    if items.len() == 0 {
        Seq::empty()
    } else {
        let front = items.drop_last();
        let separator = if front.len() > 0 {
            ", "@
        } else {
            Seq::empty()
        };
        render_items(front, heap, depth, texts) + separator + render(
            items.last(),
            heap,
            depth,
            texts_from(texts, item_leaves(front, heap, depth).len()),
        )
    }
}

/// The fields of an object as `name: value`, separated by `, `.
pub open spec fn render_fields(
    fields: Seq<FieldModel>,
    heap: HeapModel,
    depth: nat,
    texts: Seq<Seq<char>>,
) -> Seq<char>
    decreases depth, 1 + fields.len(),
{
    if fields.len() == 0 {
        Seq::empty()
    } else {
        let front = fields.drop_last();
        let separator = if front.len() > 0 {
            ", "@
        } else {
            Seq::empty()
        };
        render_fields(front, heap, depth, texts) + separator + fields.last().name + ": "@ + render(
            fields.last().value,
            heap,
            depth,
            texts_from(texts, field_leaves(front, heap, depth).len()),
        )
    }
}

/// Whether `text` is a display form of `v`: its rendering for some texts of
/// its numbers.
pub open spec fn is_display_of(text: Seq<char>, v: ValueModel, heap: HeapModel) -> bool {
    exists|texts: Seq<Seq<char>>|
        texts.len() == number_leaves(v, heap, MAX_RENDER_DEPTH as nat).len() && text
            == #[trigger] render(v, heap, MAX_RENDER_DEPTH as nat, texts)
}

/// The texts of a vector of strings.
pub open spec fn texts_model(texts: Seq<String>) -> Seq<Seq<char>> {
    Seq::new(texts.len(), |i: int| texts[i]@)
}

impl Heap {
    pub fn new() -> (r: Self)
        ensures
            r@ == HeapModel::empty(),
    {
        let r = Heap { lists: Vec::new(), objects: Vec::new() };
        assert(r@.lists =~= Seq::empty());
        assert(r@.objects =~= Seq::empty());
        r
    }

    /// Puts a new list on the heap and returns the value that holds its handle.
    pub fn alloc_list(&mut self, items: Vec<PumpkinValue>) -> (r: PumpkinValue)
        ensures
            r@ == ValueModel::List(old(self).lists.len()),
            final(self)@ == old(self)@.with_list(values_model(items@)),
    {
        let handle = self.lists.len();
        self.lists.push(items);
        assert(self@.lists =~= old(self)@.lists.push(values_model(items@)));
        PumpkinValue::List(handle)
    }

    /// Puts a new object on the heap and returns the value that holds its handle.
    pub fn alloc_object(&mut self, fields: Vec<ObjectField>) -> (r: PumpkinValue)
        ensures
            r@ == ValueModel::Object(old(self).objects.len()),
            final(self)@ == old(self)@.with_object(fields_model(fields@)),
    {
        let handle = self.objects.len();
        self.objects.push(fields);
        assert(self@.objects =~= old(self)@.objects.push(fields_model(fields@)));
        PumpkinValue::Object(handle)
    }

    /// Whether the heap has an object under `handle`.
    pub fn holds_object(&self, handle: usize) -> (r: bool)
        ensures
            r == self@.has_object(handle),
    {
        handle < self.objects.len()
    }

    /// The length of the list under `handle`, if the heap has it.
    pub fn list_len(&self, handle: usize) -> (r: Option<usize>)
        ensures
            r is Some == self@.has_list(handle),
            r matches Some(n) ==> n == self@.lists[handle as int].len(),
    {
        if handle < self.lists.len() {
            Some(self.lists[handle].len())
        } else {
            None
        }
    }

    /// The item at `index` of the list under `handle`, if the heap has the
    /// list and the list has the index.
    pub fn list_item(&self, handle: usize, index: usize) -> (r: Option<PumpkinValue>)
        ensures
            r is Some == (self@.has_list(handle) && index < self@.lists[handle as int].len()),
            r matches Some(v) ==> v@ == self@.lists[handle as int][index as int],
    {
        if handle < self.lists.len() && index < self.lists[handle].len() {
            Some(self.lists[handle][index].clone())
        } else {
            None
        }
    }

    /// Stores `value` at `index` of the list under `handle`. Returns whether
    /// the heap has the list and the list has the index; the heap is
    /// unchanged where it has not.
    pub fn list_store(&mut self, handle: usize, index: usize, value: PumpkinValue) -> (stored: bool)
        ensures
            stored == (old(self)@.has_list(handle) && index < old(self)@.lists[handle as int].len()),
            stored ==> final(self)@ == old(self)@.store(handle as int, index as int, value@),
            !stored ==> final(self)@ == old(self)@,
    {
        if handle >= self.lists.len() || index >= self.lists[handle].len() {
            return false;
        }
        let mut items: Vec<PumpkinValue> = Vec::new();
        std::mem::swap(&mut items, &mut self.lists[handle]);
        items.set(index, value);
        proof {
            values_model_update(old(self).lists@[handle as int]@, index as int, value);
        }
        self.lists.set(handle, items);
        assert(self@.lists =~= old(self)@.store(handle as int, index as int, value@).lists);
        true
    }

    /// The value of the first field named `name` of the object under
    /// `handle`; `None` also where the heap has no such object.
    pub fn field(&self, handle: usize, name: &str) -> (r: Option<PumpkinValue>)
        ensures
            r is Some == (self@.has_object(handle) && lookup_field(
                self@.objects[handle as int],
                name@,
            ) is Some),
            r matches Some(v) ==> Some(v@) == lookup_field(self@.objects[handle as int], name@),
    {
        if handle >= self.objects.len() {
            return None;
        }
        let fields = &self.objects[handle];
        let wanted = String::from_str(name);
        let mut i: usize = 0;
        assert(fields_model(fields@).skip(0) =~= fields_model(fields@));
        while i < fields.len()
            invariant
                i <= fields.len(),
                wanted@ == name@,
                self@.has_object(handle),
                fields_model(fields@) == self@.objects[handle as int],
                lookup_field(fields_model(fields@), name@) == lookup_field(
                    fields_model(fields@).skip(i as int),
                    name@,
                ),
            decreases fields.len() - i,
        {
            let ghost rest = fields_model(fields@).skip(i as int);
            assert(rest.drop_first() =~= fields_model(fields@).skip(i + 1));
            if fields[i].name == wanted {
                return Some(fields[i].value.clone());
            }
            i = i + 1;
        }
        None
    }
}

/// Skipping in two steps is skipping once.
proof fn texts_from_skip(texts: Seq<Seq<char>>, start: nat, n: nat)
    requires
        start <= texts.len(),
    ensures
        texts_from(texts.skip(start as int), n) == texts.skip(
            if start + n <= texts.len() {
                (start + n) as int
            } else {
                texts.len() as int
            },
        ),
{
}

impl Heap {
    /// Appends to `out` the numbers that a rendering of `v` asks a text for.
    pub fn collect_numbers(&self, v: &PumpkinValue, depth: usize, out: &mut Vec<u64>)
        ensures
            final(out)@ == old(out)@ + number_leaves(v@, self@, depth as nat),
        decreases depth,
    {
        let ghost before = out@;
        match v {
            PumpkinValue::Number(n) => {
                out.push(*n);
            },
            PumpkinValue::List(h) => {
                if depth > 0 && *h < self.lists.len() {
                    let items = &self.lists[*h];
                    let ghost models = values_model(items@);
                    let mut i: usize = 0;
                    while i < items.len()
                        invariant
                            i <= items.len(),
                            depth > 0,
                            models == values_model(items@),
                            out@ == before + item_leaves(
                                models.take(i as int),
                                self@,
                                (depth - 1) as nat,
                            ),
                        decreases items.len() - i,
                    {
                        self.collect_numbers(&items[i], depth - 1, out);
                        proof {
                            let next = models.take(i + 1);
                            assert(next.drop_last() =~= models.take(i as int));
                        }
                        i = i + 1;
                    }
                    assert(models.take(items.len() as int) =~= models);
                }
            },
            PumpkinValue::Object(h) => {
                if depth > 0 && *h < self.objects.len() {
                    let fields = &self.objects[*h];
                    let ghost models = fields_model(fields@);
                    let mut i: usize = 0;
                    while i < fields.len()
                        invariant
                            i <= fields.len(),
                            depth > 0,
                            models == fields_model(fields@),
                            out@ == before + field_leaves(
                                models.take(i as int),
                                self@,
                                (depth - 1) as nat,
                            ),
                        decreases fields.len() - i,
                    {
                        self.collect_numbers(&fields[i].value, depth - 1, out);
                        proof {
                            let next = models.take(i + 1);
                            assert(next.drop_last() =~= models.take(i as int));
                        }
                        i = i + 1;
                    }
                    assert(models.take(fields.len() as int) =~= models);
                }
            },
            _ => {},
        }
    }

    /// Renders `v` with the texts from `start` on. Returns the rendering and
    /// the index of the first text that it has not used.
    fn render_at(
        &self,
        v: &PumpkinValue,
        depth: usize,
        texts: &Vec<String>,
        start: usize,
    ) -> (r: (String, usize))
        requires
            start <= texts.len(),
        ensures
            r.0@ == render(v@, self@, depth as nat, texts_model(texts@).skip(start as int)),
            r.1 == if start + number_leaves(v@, self@, depth as nat).len() <= texts.len() {
                start + number_leaves(v@, self@, depth as nat).len()
            } else {
                texts.len() as int
            },
        decreases depth,
    {
        let ghost all = texts_model(texts@);
        match v {
            PumpkinValue::Number(_) => {
                if start < texts.len() {
                    (texts[start].clone(), start + 1)
                } else {
                    (String::new(), start)
                }
            },
            PumpkinValue::String(s) => {
                let mut r = String::from_str("\"");
                r.append(s.as_str());
                r.append("\"");
                (r, start)
            },
            PumpkinValue::Boolean(b) => {
                if *b {
                    (String::from_str("true"), start)
                } else {
                    (String::from_str("false"), start)
                }
            },
            PumpkinValue::Null => (String::from_str("null"), start),
            PumpkinValue::Function(f) => {
                let mut r = String::from_str("<function ");
                r.append(f.name.as_str());
                r.append(">");
                (r, start)
            },
            PumpkinValue::List(h) => {
                if depth > 0 && *h < self.lists.len() {
                    let items = &self.lists[*h];
                    let ghost models = values_model(items@);
                    let mut r = String::from_str("[");
                    let ghost open = r@;
                    let mut next: usize = start;
                    let mut i: usize = 0;
                    while i < items.len()
                        invariant
                            i <= items.len(),
                            depth > 0,
                            start <= next <= texts.len(),
                            all == texts_model(texts@),
                            models == values_model(items@),
                            r@ == open + render_items(
                                models.take(i as int),
                                self@,
                                (depth - 1) as nat,
                                all.skip(start as int),
                            ),
                            next == if start + item_leaves(
                                models.take(i as int),
                                self@,
                                (depth - 1) as nat,
                            ).len() <= texts.len() {
                                start + item_leaves(
                                    models.take(i as int),
                                    self@,
                                    (depth - 1) as nat,
                                ).len()
                            } else {
                                texts.len() as int
                            },
                        decreases items.len() - i,
                    {
                        if i > 0 {
                            r.append(", ");
                        }
                        let (item, after) = self.render_at(&items[i], depth - 1, texts, next);
                        r.append(item.as_str());
                        proof {
                            let front = models.take(i as int);
                            let grown = models.take(i + 1);
                            assert(grown.drop_last() =~= front);
                            texts_from_skip(
                                all,
                                start as nat,
                                item_leaves(front, self@, (depth - 1) as nat).len(),
                            );
                        }
                        next = after;
                        i = i + 1;
                    }
                    assert(models.take(items.len() as int) =~= models);
                    r.append("]");
                    (r, next)
                } else {
                    (String::from_str("[...]"), start)
                }
            },
            PumpkinValue::Object(h) => {
                if depth > 0 && *h < self.objects.len() {
                    let fields = &self.objects[*h];
                    let ghost models = fields_model(fields@);
                    let mut r = String::from_str("{");
                    let ghost open = r@;
                    let mut next: usize = start;
                    let mut i: usize = 0;
                    while i < fields.len()
                        invariant
                            i <= fields.len(),
                            depth > 0,
                            start <= next <= texts.len(),
                            all == texts_model(texts@),
                            models == fields_model(fields@),
                            r@ == open + render_fields(
                                models.take(i as int),
                                self@,
                                (depth - 1) as nat,
                                all.skip(start as int),
                            ),
                            next == if start + field_leaves(
                                models.take(i as int),
                                self@,
                                (depth - 1) as nat,
                            ).len() <= texts.len() {
                                start + field_leaves(
                                    models.take(i as int),
                                    self@,
                                    (depth - 1) as nat,
                                ).len()
                            } else {
                                texts.len() as int
                            },
                        decreases fields.len() - i,
                    {
                        if i > 0 {
                            r.append(", ");
                        }
                        r.append(fields[i].name.as_str());
                        r.append(": ");
                        let (item, after) = self.render_at(
                            &fields[i].value,
                            depth - 1,
                            texts,
                            next,
                        );
                        r.append(item.as_str());
                        proof {
                            let front = models.take(i as int);
                            let grown = models.take(i + 1);
                            assert(grown.drop_last() =~= front);
                            texts_from_skip(
                                all,
                                start as nat,
                                field_leaves(front, self@, (depth - 1) as nat).len(),
                            );
                        }
                        next = after;
                        i = i + 1;
                    }
                    assert(models.take(fields.len() as int) =~= models);
                    r.append("}");
                    (r, next)
                } else {
                    (String::from_str("{...}"), start)
                }
            },
        }
    }

    /// Renders `v`, entering at most `depth` levels of containers, with the
    /// texts from `start` on. Returns the rendering and the index of the
    /// first text that it has not used.
    pub fn render_from(
        &self,
        v: &PumpkinValue,
        depth: usize,
        texts: &Vec<String>,
        start: usize,
    ) -> (r: (String, usize))
        ensures
            r.0@ == render(v@, self@, depth as nat, texts_from(texts_model(texts@), start as nat)),
            r.1 == if start + number_leaves(v@, self@, depth as nat).len() <= texts.len() {
                start + number_leaves(v@, self@, depth as nat).len()
            } else if start <= texts.len() {
                texts.len() as int
            } else {
                start as int
            },
    {
        if start <= texts.len() {
            self.render_at(v, depth, texts, start)
        } else {
            assert(texts_model(texts@).skip(texts.len() as int) =~= Seq::<Seq<char>>::empty());
            let (text, _) = self.render_at(v, depth, texts, texts.len());
            (text, start)
        }
    }

    /// The numbers whose texts the display form of `v` needs, in order.
    pub fn numbers_to_format(&self, v: &PumpkinValue) -> (r: Vec<u64>)
        ensures
            r@ == number_leaves(v@, self@, MAX_RENDER_DEPTH as nat),
    {
        let mut out: Vec<u64> = Vec::new();
        self.collect_numbers(v, MAX_RENDER_DEPTH, &mut out);
        out
    }

    /// The display form of `v`, its numbers shown as `texts` give them.
    pub fn display_with(&self, v: &PumpkinValue, texts: &Vec<String>) -> (r: String)
        ensures
            r@ == render(v@, self@, MAX_RENDER_DEPTH as nat, texts_model(texts@)),
    {
        assert(texts_model(texts@).skip(0) =~= texts_model(texts@));
        let (text, _) = self.render_at(v, MAX_RENDER_DEPTH, texts, 0);
        text
    }
}

} // verus!
