//! Slicing an ordered list into pages of a fixed size.

use vstd::pervasive::cloned;
use vstd::prelude::*;

verus! {

/// Number of items on page `page` of a list of `n` items cut into pages of
/// `page_size` items: `min(page_size, max(0, n - page * page_size))`.
pub open spec fn page_len(n: nat, page: nat, page_size: nat) -> nat {
    if page * page_size >= n {
        0
    } else if n - page * page_size < page_size {
        (n - page * page_size) as nat
    } else {
        page_size
    }
}

/// Page `page` of `items`: the items from offset `page * page_size` up to
/// `min((page + 1) * page_size, items.len())`, empty when the offset lies
/// beyond the list.
pub open spec fn page_of<T>(items: Seq<T>, page: nat, page_size: nat) -> Seq<T> {
    let start = page * page_size;
    if start >= items.len() {
        Seq::empty()
    } else {
        items.subrange(start as int, (start + page_len(items.len(), page, page_size)) as int)
    }
}

/// Number of pages needed for `n` items: `ceil(n / page_size)`. A page size
/// of zero admits no page.
pub open spec fn page_count(n: nat, page_size: nat) -> nat {
    if page_size == 0 {
        0
    } else if n % page_size == 0 {
        n / page_size
    } else {
        n / page_size + 1
    }
}

/// The first `count` pages of `items`, one after the other.
pub open spec fn concat_pages<T>(items: Seq<T>, page_size: nat, count: nat) -> Seq<T>
    decreases count,
{
    if count == 0 {
        Seq::empty()
    } else {
        concat_pages(items, page_size, (count - 1) as nat) + page_of(
            items,
            (count - 1) as nat,
            page_size,
        )
    }
}

/// `count` full pages reach `count * page_size` items into the list, or to
/// its end.
proof fn lemma_concat_prefix<T>(items: Seq<T>, page_size: nat, count: nat)
    requires
        page_size > 0,
    ensures
        concat_pages(items, page_size, count) == items.subrange(
            0,
            if count * page_size <= items.len() {
                (count * page_size) as int
            } else {
                items.len() as int
            },
        ),
    decreases count,
{
    if count == 0 {
        assert(count * page_size == 0) by (nonlinear_arith)
            requires
                count == 0,
        ;
        assert(concat_pages(items, page_size, count) =~= items.subrange(0, 0));
    } else {
        let prev = (count - 1) as nat;
        lemma_concat_prefix(items, page_size, prev);
        assert(count * page_size == prev * page_size + page_size && prev * page_size >= 0)
            by (nonlinear_arith)
            requires
                prev == count - 1,
        ;
        assert(concat_pages(items, page_size, count) =~= items.subrange(
            0,
            if count * page_size <= items.len() {
                (count * page_size) as int
            } else {
                items.len() as int
            },
        ));
    }
}

/// Every page holds `min(page_size, max(0, n - page * page_size))` items,
/// taken in order from offset `page * page_size`.
pub proof fn lemma_page_len<T>(items: Seq<T>, page: nat, page_size: nat)
    ensures
        page_of(items, page, page_size).len() == page_len(items.len(), page, page_size),
        page_len(items.len(), page, page_size) <= page_size,
        forall|i: int|
            0 <= i < page_len(items.len(), page, page_size) ==> #[trigger] page_of(
                items,
                page,
                page_size,
            )[i] == items[page * page_size + i],
{
    assert(page * page_size >= 0) by (nonlinear_arith);
}

/// Laying the pages `0..ceil(n / page_size)` end to end gives back the list
/// itself: nothing is left out, repeated or moved.
pub proof fn lemma_pages_cover<T>(items: Seq<T>, page_size: nat)
    requires
        page_size > 0,
    ensures
        concat_pages(items, page_size, page_count(items.len(), page_size)) == items,
{
    let n = items.len();
    let count = page_count(n, page_size);
    lemma_concat_prefix(items, page_size, count);
    assert(count * page_size >= n) by (nonlinear_arith)
        requires
            page_size > 0,
            count == if n % page_size == 0 {
                n / page_size
            } else {
                n / page_size + 1
            },
    ;
    assert(items.subrange(0, n as int) =~= items);
}

/// Copies page `page` out of `collection`, cloning each item. The result has
/// the items of `page_of` in their order; an offset beyond the list, or one
/// that no `usize` can hold, gives an empty buffer.
pub fn get_page_buffer<T>(collection: &Vec<&T>, page: usize, page_size: usize) -> (buffer: Vec<T>)
    where T: Clone
    ensures
        buffer@.len() == page_len(collection@.len(), page as nat, page_size as nat),
        forall|i: int|
            0 <= i < buffer@.len() ==> cloned::<T>(
                *collection@[page * page_size + i],
                #[trigger] buffer@[i],
            ),
{
    let total_elements: usize = collection.len();
    let mut buffer: Vec<T> = Vec::new();
    let offset: usize = match page.checked_mul(page_size) {
        Some(offset) => offset,
        None => {
            return buffer;
        },
    };
    if offset > total_elements {
        return buffer;
    }
    let endpoint: usize = if page_size > total_elements - offset {
        total_elements
    } else {
        offset + page_size
    };
    let mut index: usize = offset;
    while index < endpoint
        invariant
            offset <= index <= endpoint <= total_elements,
            total_elements == collection@.len(),
            offset == page * page_size,
            buffer@.len() == index - offset,
            forall|i: int|
                0 <= i < buffer@.len() ==> cloned::<T>(
                    *collection@[offset + i],
                    #[trigger] buffer@[i],
                ),
        decreases endpoint - index,
    {
        let element: T = collection[index].clone();
        buffer.push(element);
        index = index + 1;
    }
    buffer
}

} // verus!
