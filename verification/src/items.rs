//! The item store: an ordered list of records, each with an id one above the
//! largest id that was in the store when the record was made.

use vstd::prelude::*;

verus! {

/// One record of the store.
#[derive(Clone, Debug)]
pub struct Item {
    pub id: u32,
    pub name: String,
    pub description: String,
}

/// A record as plain values.
pub struct ItemView {
    pub id: u32,
    pub name: Seq<char>,
    pub description: Seq<char>,
}

impl View for Item {
    type V = ItemView;

    open spec fn view(&self) -> ItemView {
        ItemView { id: self.id, name: self.name@, description: self.description@ }
    }
}

/// The records of `items` as plain values.
pub open spec fn item_views(items: Seq<Item>) -> Seq<ItemView> {
    items.map_values(|item: Item| item@)
}

/// The largest id among `items`; 0 where there is none.
pub open spec fn max_id(items: Seq<ItemView>) -> int
    decreases items.len(),
{
    if items.len() == 0 {
        0
    } else {
        let rest = max_id(items.drop_last());
        if items.last().id > rest {
            items.last().id as int
        } else {
            rest
        }
    }
}

/// The id that the next record gets.
pub open spec fn next_id(items: Seq<ItemView>) -> int {
    max_id(items) + 1
}

/// The store after a record with the given texts has been made: the record
/// stands at the end, under the next id.
pub open spec fn with_created(
    items: Seq<ItemView>,
    name: Seq<char>,
    description: Seq<char>,
) -> Seq<ItemView>
    recommends
        next_id(items) <= u32::MAX,
{
    items.push(ItemView { id: next_id(items) as u32, name, description })
}

/// The record that the store holds when it is made.
pub open spec fn seed_item() -> ItemView {
    ItemView { id: 1, name: "Example Item"@, description: "This is an example item"@ }
}

/// No id in `items` is above `max_id(items)`, and `max_id(items)` is an id of
/// `items` unless there is none.
pub proof fn lemma_max_id(items: Seq<ItemView>)
    ensures
        0 <= max_id(items) <= u32::MAX,
        forall|i: int| 0 <= i < items.len() ==> (#[trigger] items[i]).id <= max_id(items),
        items.len() > 0 ==> exists|i: int| 0 <= i < items.len() && (#[trigger] items[i]).id == max_id(items),
    decreases items.len(),
{
    if items.len() > 0 {
        let rest = items.drop_last();
        lemma_max_id(rest);
        assert forall|i: int| 0 <= i < items.len() implies (#[trigger] items[i]).id <= max_id(
            items,
        ) by {
            if i < rest.len() {
                assert(items[i] == rest[i]);
            }
        }
        if items.last().id > max_id(rest) || rest.len() == 0 {
            assert(items[items.len() - 1].id == max_id(items));
        } else {
            let i = choose|i: int| 0 <= i < rest.len() && (#[trigger] rest[i]).id == max_id(rest);
            assert(items[i] == rest[i]);
        }
    }
}

/// The store after one record has been made for each of `requests`, a name
/// and a description each, in their order.
pub open spec fn with_all_created(
    items: Seq<ItemView>,
    requests: Seq<(Seq<char>, Seq<char>)>,
) -> Seq<ItemView>
    decreases requests.len(),
{
    if requests.len() == 0 {
        items
    } else {
        with_created(
            with_all_created(items, requests.drop_last()),
            requests.last().0,
            requests.last().1,
        )
    }
}

/// Records made one after the other get ids that rise by one each, without a
/// gap, from one above the largest id that the store held before. The
/// records that were there stay as they were, and each new record holds the
/// texts it was asked with.
pub proof fn lemma_sequential_ids(items: Seq<ItemView>, requests: Seq<(Seq<char>, Seq<char>)>)
    requires
        max_id(items) + requests.len() <= u32::MAX,
    ensures
        with_all_created(items, requests).len() == items.len() + requests.len(),
        with_all_created(items, requests).subrange(0, items.len() as int) == items,
        max_id(with_all_created(items, requests)) == max_id(items) + requests.len(),
        forall|k: int|
            0 <= k < requests.len() ==> #[trigger] with_all_created(items, requests)[items.len()
                + k] == (ItemView {
                id: (max_id(items) + 1 + k) as u32,
                name: requests[k].0,
                description: requests[k].1,
            }),
    decreases requests.len(),
{
    let after = with_all_created(items, requests);
    if requests.len() == 0 {
        assert(after.subrange(0, items.len() as int) =~= items);
    } else {
        let earlier = requests.drop_last();
        let before = with_all_created(items, earlier);
        lemma_sequential_ids(items, earlier);
        lemma_max_id(before);
        assert(after == with_created(before, requests.last().0, requests.last().1));
        assert(after.drop_last() =~= before);
        assert(after.subrange(0, items.len() as int) =~= before.subrange(0, items.len() as int));
        assert forall|k: int| 0 <= k < requests.len() implies #[trigger] after[items.len() + k]
            == (ItemView {
            id: (max_id(items) + 1 + k) as u32,
            name: requests[k].0,
            description: requests[k].1,
        }) by {
            if k < earlier.len() {
                assert(after[items.len() + k] == before[items.len() + k]);
                assert(earlier[k] == requests[k]);
            }
        }
    }
}

/// However many records are made, and in whatever order the requests for
/// them reach the store, none is lost and no id is given twice: the store
/// grows by one record for each request, the new ids differ from each other
/// and from every id that was there before.
pub proof fn lemma_no_lost_writes(items: Seq<ItemView>, requests: Seq<(Seq<char>, Seq<char>)>)
    requires
        max_id(items) + requests.len() <= u32::MAX,
    ensures
        with_all_created(items, requests).len() == items.len() + requests.len(),
        forall|j: int, k: int|
            0 <= j < items.len() + requests.len() && items.len() <= k < items.len()
                + requests.len() && j != k ==> (#[trigger] with_all_created(items, requests)[j]).id
                != (#[trigger] with_all_created(items, requests)[k]).id,
{
    let after = with_all_created(items, requests);
    lemma_sequential_ids(items, requests);
    lemma_max_id(items);
    assert forall|j: int, k: int|
        0 <= j < items.len() + requests.len() && items.len() <= k < items.len() + requests.len()
            && j != k implies (#[trigger] after[j]).id != (#[trigger] after[k]).id by {
        assert(after[items.len() + (k - items.len())].id == max_id(items) + 1 + (k - items.len()));
        if j < items.len() {
            assert(after.subrange(0, items.len() as int)[j] == after[j]);
            assert(items[j].id <= max_id(items));
        } else {
            assert(after[items.len() + (j - items.len())].id == max_id(items) + 1 + (j
                - items.len()));
        }
    }
}

/// A copy of `item`.
pub fn copy_item(item: &Item) -> (copy: Item)
    ensures
        copy@ == item@,
{
    Item { id: item.id, name: item.name.clone(), description: item.description.clone() }
}

/// The records, in the order in which they were made.
pub struct ItemStore {
    pub items: Vec<Item>,
}

impl View for ItemStore {
    type V = Seq<ItemView>;

    open spec fn view(&self) -> Seq<ItemView> {
        item_views(self.items@)
    }
}

impl ItemStore {
    /// A store that holds the seed record.
    pub fn new() -> (store: ItemStore)
        ensures
            store@ == seq![seed_item()],
    {
        let mut items: Vec<Item> = Vec::new();
        items.push(
            Item {
                id: 1,
                name: "Example Item".to_owned(),
                description: "This is an example item".to_owned(),
            },
        );
        let store = ItemStore { items };
        assert(store@ =~= seq![seed_item()]);
        store
    }

    /// The largest id in the store; 0 where it is empty.
    pub fn largest_id(&self) -> (largest: u32)
        ensures
            largest == max_id(self@),
    {
        let mut largest: u32 = 0;
        let mut i: usize = 0;
        while i < self.items.len()
            invariant
                i <= self.items.len(),
                largest == max_id(self@.subrange(0, i as int)),
            decreases self.items.len() - i,
        {
            proof {
                let longer = self@.subrange(0, i + 1);
                assert(longer.drop_last() =~= self@.subrange(0, i as int));
                assert(longer.last() == self.items[i as int]@);
            }
            if self.items[i].id > largest {
                largest = self.items[i].id;
            }
            i = i + 1;
        }
        assert(self@.subrange(0, i as int) =~= self@);
        largest
    }

    /// A copy of every record, in order.
    pub fn list(&self) -> (snapshot: Vec<Item>)
        ensures
            item_views(snapshot@) == self@,
    {
        let mut snapshot: Vec<Item> = Vec::new();
        let mut i: usize = 0;
        while i < self.items.len()
            invariant
                i <= self.items.len(),
                snapshot.len() == i,
                forall|j: int| 0 <= j < i ==> (#[trigger] snapshot[j])@ == self.items[j]@,
            decreases self.items.len() - i,
        {
            snapshot.push(copy_item(&self.items[i]));
            i = i + 1;
        }
        assert(item_views(snapshot@) =~= self@);
        snapshot
    }

    /// Makes a record with the next id and puts it at the end. Empty texts
    /// are taken as they are. Returns a copy of the record, or `None`, with
    /// the store unchanged, where the largest id is already `u32::MAX`.
    pub fn create(&mut self, name: String, description: String) -> (created: Option<Item>)
        ensures
            next_id(old(self)@) <= u32::MAX ==> created is Some && final(self)@ == with_created(
                old(self)@,
                name@,
                description@,
            ) && created.unwrap()@ == final(self)@.last(),
            next_id(old(self)@) > u32::MAX ==> created is None && final(self)@ == old(self)@,
    {
        let largest = self.largest_id();
        if largest == u32::MAX {
            return None;
        }
        let item = Item { id: largest + 1, name, description };
        let copy = copy_item(&item);
        self.items.push(item);
        assert(self@ =~= with_created(old(self)@, name@, description@));
        Some(copy)
    }
}

} // verus!
