//! Breakpoint instructions, and the pool of breakpoint slots to which probed
//! functions return.
use super::super::super::osutils::{dealloc_page, KernelOp, PAGE_SIZE};
use vstd::prelude::*;

verus! {

pub const BREAKPOINT_LENGTH: usize = 2;

pub const BREAKPOINTS_PER_PAGE: usize = 2048;

/// The compressed breakpoint instruction.
pub const C_EBREAK: u16 = 0x9002;

/// The number of breakpoints that fill `length` bytes; one where no length is
/// given.
pub open spec fn breakpoint_count(length: Option<usize>) -> usize {
    match length {
        Some(len) => len / BREAKPOINT_LENGTH,
        None => 1,
    }
}

/// Records that the `length` bytes from `addr` on are to be filled with
/// breakpoints; with no length, that one breakpoint is to be written.
pub fn inject_breakpoints(ops: &mut Vec<KernelOp>, addr: usize, length: Option<usize>)
    requires
        length matches Some(len) ==> len % BREAKPOINT_LENGTH == 0,
    ensures
        final(ops)@ == old(ops)@.push(
            KernelOp::Breakpoints { addr, count: breakpoint_count(length) },
        ),
{
    let bp_count = match length {
        Some(len) => len / BREAKPOINT_LENGTH,
        None => 1,
    };
    ops.push(KernelOp::Breakpoints { addr, count: bp_count });
}

/// One page of breakpoints: its address, the slots that are handed out, and
/// the slots that are free, of which the last is handed out next.
pub struct BreakpointPage {
    pub base: usize,
    pub used: Vec<usize>,
    pub free: Vec<usize>,
}

/// A page as sequences.
pub struct PageView {
    pub base: usize,
    pub used: Seq<usize>,
    pub free: Seq<usize>,
}

impl View for BreakpointPage {
    type V = PageView;

    open spec fn view(&self) -> PageView {
        PageView { base: self.base, used: self.used@, free: self.free@ }
    }
}

/// The pages of breakpoints, in the order in which they were taken.
pub struct BreakpointPool {
    pub pages: Vec<BreakpointPage>,
}

impl View for BreakpointPool {
    type V = Seq<PageView>;

    open spec fn view(&self) -> Seq<PageView> {
        Seq::new(self.pages@.len(), |i: int| self.pages@[i]@)
    }
}

/// Whether `addr` is a slot of the page at `base`.
pub open spec fn is_slot_of(base: usize, addr: usize) -> bool {
    base <= addr < base + PAGE_SIZE && (addr - base) % (BREAKPOINT_LENGTH as int) == 0
}

/// Whether the slot `addr` is handed out.
pub open spec fn slot_in_use(pages: Seq<PageView>, addr: usize) -> bool {
    exists|i: int| 0 <= i < pages.len() && (#[trigger] pages[i]).used.contains(addr)
}

/// Whether the pool has the page at `base`.
pub open spec fn has_page(pages: Seq<PageView>, base: usize) -> bool {
    exists|i: int| 0 <= i < pages.len() && (#[trigger] pages[i]).base == base
}

/// The first page, from `from` on, that has a free slot; the number of pages
/// where none has.
pub open spec fn first_free_page(pages: Seq<PageView>, from: int) -> int
    decreases pages.len() - from,
{
    if from < 0 || from >= pages.len() {
        pages.len() as int
    } else if pages[from].free.len() > 0 {
        from
    } else {
        first_free_page(pages, from + 1)
    }
}

/// The free slots of a page that was just taken: all slots but the first,
/// the highest first, so that they are handed out from the lowest up.
pub open spec fn fresh_free(base: usize) -> Seq<usize> {
    Seq::new(
        (BREAKPOINTS_PER_PAGE - 1) as nat,
        |i: int| (base + (BREAKPOINTS_PER_PAGE - 1 - i) * BREAKPOINT_LENGTH) as usize,
    )
}

/// Whether a page can be added to the pool: it starts at a page boundary,
/// ends within the address space, and is not in the pool already.
pub open spec fn is_fresh_page(pages: Seq<PageView>, base: usize) -> bool {
    &&& base % PAGE_SIZE == 0
    &&& base + PAGE_SIZE <= usize::MAX
    &&& !has_page(pages, base)
}

/// The pool after a slot was handed out.
pub open spec fn after_alloc(pages: Seq<PageView>, fresh_page: usize) -> Seq<PageView> {
    let i = first_free_page(pages, 0);
    if i < pages.len() {
        pages.update(
            i,
            PageView {
                base: pages[i].base,
                used: pages[i].used.push(pages[i].free.last()),
                free: pages[i].free.drop_last(),
            },
        )
    } else {
        pages.push(
            PageView { base: fresh_page, used: seq![fresh_page], free: fresh_free(fresh_page) },
        )
    }
}

/// The slot that is handed out next.
pub open spec fn next_slot(pages: Seq<PageView>, fresh_page: usize) -> usize {
    let i = first_free_page(pages, 0);
    if i < pages.len() {
        pages[i].free.last()
    } else {
        fresh_page
    }
}

impl BreakpointPool {
    /// Every page starts at a page boundary and ends within the address space;
    /// no two pages are the same; the slots of a page, used or free, lie in
    /// it; and no slot is listed twice.
    pub open spec fn wf(&self) -> bool {
        &&& forall|i: int|
            0 <= i < self@.len() ==> (#[trigger] self@[i]).base % PAGE_SIZE == 0 && self@[i].base
                + PAGE_SIZE <= usize::MAX
        &&& forall|i: int, j: int|
            0 <= i < j < self@.len() ==> (#[trigger] self@[i]).base != (#[trigger] self@[j]).base
        &&& forall|i: int, k: int|
            0 <= i < self@.len() && 0 <= k < self@[i].used.len() ==> is_slot_of(
                self@[i].base,
                #[trigger] self@[i].used[k],
            )
        &&& forall|i: int, k: int|
            0 <= i < self@.len() && 0 <= k < self@[i].free.len() ==> is_slot_of(
                self@[i].base,
                #[trigger] self@[i].free[k],
            )
        &&& forall|i: int, k: int, l: int|
            0 <= i < self@.len() && 0 <= k < l < self@[i].used.len() ==> (
            #[trigger] self@[i].used[k]) != (#[trigger] self@[i].used[l])
        &&& forall|i: int, k: int, l: int|
            0 <= i < self@.len() && 0 <= k < l < self@[i].free.len() ==> (
            #[trigger] self@[i].free[k]) != (#[trigger] self@[i].free[l])
        &&& forall|i: int, k: int, l: int|
            0 <= i < self@.len() && 0 <= k < self@[i].used.len() && 0 <= l < self@[i].free.len()
                ==> (#[trigger] self@[i].used[k]) != (#[trigger] self@[i].free[l])
    }

    /// A pool without pages.
    pub fn new() -> (pool: Self)
        ensures
            pool.wf(),
            pool@ == Seq::<PageView>::empty(),
    {
        let pool = BreakpointPool { pages: Vec::new() };
        assert(pool@ =~= Seq::<PageView>::empty());
        pool
    }

    /// Whether the pool has the page at `base`.
    pub fn contains_page(&self, base: usize) -> (r: bool)
        ensures
            r == has_page(self@, base),
    {
        let mut i: usize = 0;
        while i < self.pages.len()
            invariant
                i <= self.pages@.len(),
                forall|j: int| 0 <= j < i ==> (#[trigger] self@[j]).base != base,
            decreases self.pages@.len() - i,
        {
            if self.pages[i].base == base {
                assert(self@[i as int].base == base);
                return true;
            }
            i += 1;
        }
        false
    }
}

/// Hands out a breakpoint slot that no probe holds: the last free slot of the
/// first page that has one, or else the first slot of `fresh_page`, which is
/// filled with breakpoints and joins the pool. Says whether the page was
/// taken.
pub fn alloc_breakpoint(
    pool: &mut BreakpointPool,
    fresh_page: usize,
    ops: &mut Vec<KernelOp>,
) -> (r: (usize, bool))
    requires
        old(pool).wf(),
        is_fresh_page(old(pool)@, fresh_page),
    ensures
        final(pool).wf(),
        final(pool)@ == after_alloc(old(pool)@, fresh_page),
        r.0 == next_slot(old(pool)@, fresh_page),
        r.1 == (first_free_page(old(pool)@, 0) >= old(pool)@.len()),
        final(ops)@ == (if r.1 {
            old(ops)@.push(KernelOp::Breakpoints { addr: fresh_page, count: BREAKPOINTS_PER_PAGE })
        } else {
            old(ops)@
        }),
        !slot_in_use(old(pool)@, r.0),
        forall|a: usize| slot_in_use(final(pool)@, a) <==> a == r.0 || slot_in_use(old(pool)@, a),
{
    let mut i: usize = 0;
    while i < pool.pages.len() && pool.pages[i].free.len() == 0
        invariant
            i <= pool.pages@.len(),
            *pool == *old(pool),
            first_free_page(pool@, 0) == first_free_page(pool@, i as int),
        decreases pool.pages@.len() - i,
    {
        i += 1;
    }
    if i < pool.pages.len() {
        let addr = pool.pages[i].free.pop().unwrap();
        pool.pages[i].used.push(addr);
        proof {
            let before = old(pool)@;
            let after = pool@;
            assert(after =~= after_alloc(before, fresh_page));
            assert(before[i as int].free[before[i as int].free.len() - 1] == addr);
            assert forall|j: int| 0 <= j < before.len() implies !(#[trigger] before[j]).used.contains(
                addr,
            ) by {
                if before[j].used.contains(addr) {
                    let k = choose|k: int| 0 <= k < before[j].used.len() && before[j].used[k] == addr;
                    if j == i {
                        assert(before[j].used[k] != before[j].free[before[j].free.len() - 1]);
                    } else {
                        assert(is_slot_of(before[j].base, before[j].used[k]));
                        assert(is_slot_of(
                            before[i as int].base,
                            before[i as int].free[before[i as int].free.len() - 1],
                        ));
                        lemma_pages_apart(before[j].base, before[i as int].base, addr);
                        if j < i {
                            assert(before[j].base != before[i as int].base);
                        } else {
                            assert(before[i as int].base != before[j].base);
                        }
                    }
                }
            }
            assert forall|a: usize| slot_in_use(after, a) <==> a == addr || slot_in_use(
                before,
                a,
            ) by {
                if slot_in_use(after, a) && a != addr {
                    let j = choose|j: int| 0 <= j < after.len() && (#[trigger] after[j]).used.contains(a);
                    let k = choose|k: int| 0 <= k < after[j].used.len() && after[j].used[k] == a;
                    assert(before[j].used[k] == a);
                    assert(before[j].used.contains(a));
                }
                if slot_in_use(before, a) {
                    let j = choose|j: int| 0 <= j < before.len() && (#[trigger] before[j]).used.contains(a);
                    let k = choose|k: int| 0 <= k < before[j].used.len() && before[j].used[k] == a;
                    assert(after[j].used[k] == a);
                    assert(after[j].used.contains(a));
                }
                assert(after[i as int].used[after[i as int].used.len() - 1] == addr);
                assert(after[i as int].used.contains(addr));
            }
            assert(pool.wf()) by {
                assert forall|p: int, k: int|
                    0 <= p < after.len() && 0 <= k < after[p].used.len() implies is_slot_of(
                    after[p].base,
                    #[trigger] after[p].used[k],
                ) by {
                    if p == i && k == after[p].used.len() - 1 {
                        assert(is_slot_of(before[p].base, before[p].free[before[p].free.len() - 1]));
                    } else {
                        assert(is_slot_of(before[p].base, before[p].used[k]));
                    }
                }
                assert forall|p: int, k: int|
                    0 <= p < after.len() && 0 <= k < after[p].free.len() implies is_slot_of(
                    after[p].base,
                    #[trigger] after[p].free[k],
                ) by {
                    assert(is_slot_of(before[p].base, before[p].free[k]));
                }
                assert forall|p: int, k: int, l: int|
                    0 <= p < after.len() && 0 <= k < l < after[p].used.len() implies (
                #[trigger] after[p].used[k]) != (#[trigger] after[p].used[l]) by {
                    if p == i && l == after[p].used.len() - 1 {
                        assert(before[p].used[k] != before[p].free[before[p].free.len() - 1]);
                    } else {
                        assert(before[p].used[k] != before[p].used[l]);
                    }
                }
                assert forall|p: int, k: int, l: int|
                    0 <= p < after.len() && 0 <= k < l < after[p].free.len() implies (
                #[trigger] after[p].free[k]) != (#[trigger] after[p].free[l]) by {
                    assert(before[p].free[k] != before[p].free[l]);
                }
                assert forall|p: int, k: int, l: int|
                    0 <= p < after.len() && 0 <= k < after[p].used.len() && 0 <= l
                        < after[p].free.len() implies (#[trigger] after[p].used[k]) != (
                #[trigger] after[p].free[l]) by {
                    if p == i && k == after[p].used.len() - 1 {
                        assert(before[p].free[l] != before[p].free[before[p].free.len() - 1]);
                    } else {
                        assert(before[p].used[k] != before[p].free[l]);
                    }
                }
                assert forall|p: int, q: int| 0 <= p < q < after.len() implies (
                #[trigger] after[p]).base != (#[trigger] after[q]).base by {
                    assert(before[p].base != before[q].base);
                }
                assert forall|p: int| 0 <= p < after.len() implies (#[trigger] after[p]).base
                    % PAGE_SIZE == 0 && after[p].base + PAGE_SIZE <= usize::MAX by {
                    assert(before[p].base % PAGE_SIZE == 0);
                }
            }
        }
        (addr, false)
    } else {
        // new page of breakpoints
        let base = fresh_page;
        inject_breakpoints(ops, base, Some(PAGE_SIZE));
        let mut free: Vec<usize> = Vec::new();
        let mut n: usize = BREAKPOINTS_PER_PAGE - 1;
        while n > 0
            invariant
                n <= BREAKPOINTS_PER_PAGE - 1,
                base + PAGE_SIZE <= usize::MAX,
                free@.len() == BREAKPOINTS_PER_PAGE - 1 - n,
                forall|k: int|
                    0 <= k < free@.len() ==> free@[k] == base + (BREAKPOINTS_PER_PAGE - 1 - k)
                        * BREAKPOINT_LENGTH,
            decreases n,
        {
            free.push(base + n * BREAKPOINT_LENGTH);
            n -= 1;
        }
        assert(free@ =~= fresh_free(base));
        let mut used: Vec<usize> = Vec::new();
        used.push(base);
        pool.pages.push(BreakpointPage { base, used, free });
        proof {
            let before = old(pool)@;
            let after = pool@;
            let last = before.len() as int;
            assert(after[last].used =~= seq![base]);
            assert(after =~= after_alloc(before, fresh_page));
            assert forall|j: int| 0 <= j < before.len() implies !(#[trigger] before[j]).used.contains(
                base,
            ) by {
                if before[j].used.contains(base) {
                    let k = choose|k: int| 0 <= k < before[j].used.len() && before[j].used[k] == base;
                    assert(is_slot_of(before[j].base, before[j].used[k]));
                    lemma_pages_apart(before[j].base, base, base);
                    assert(before[j].base == base);
                }
            }
            assert forall|a: usize| slot_in_use(after, a) <==> a == base || slot_in_use(
                before,
                a,
            ) by {
                if slot_in_use(after, a) && a != base {
                    let j = choose|j: int| 0 <= j < after.len() && (#[trigger] after[j]).used.contains(a);
                    if j == last {
                        let k = choose|k: int| 0 <= k < after[j].used.len() && after[j].used[k] == a;
                    } else {
                        assert(before[j].used.contains(a));
                    }
                }
                if slot_in_use(before, a) {
                    let j = choose|j: int| 0 <= j < before.len() && (#[trigger] before[j]).used.contains(a);
                    assert(after[j].used.contains(a));
                }
                assert(after[last].used[0] == base);
                assert(after[last].used.contains(base));
            }
            assert(pool.wf()) by {
                assert forall|p: int, q: int| 0 <= p < q < after.len() implies (
                #[trigger] after[p]).base != (#[trigger] after[q]).base by {
                    if q == last {
                        assert(before[p].base != base);
                    } else {
                        assert(before[p].base != before[q].base);
                    }
                }
                assert forall|p: int| 0 <= p < after.len() implies (#[trigger] after[p]).base
                    % PAGE_SIZE == 0 && after[p].base + PAGE_SIZE <= usize::MAX by {
                    if p < last {
                        assert(before[p].base % PAGE_SIZE == 0);
                    }
                }
                assert forall|p: int, k: int|
                    0 <= p < after.len() && 0 <= k < after[p].used.len() implies is_slot_of(
                    after[p].base,
                    #[trigger] after[p].used[k],
                ) by {
                    if p < last {
                        assert(is_slot_of(before[p].base, before[p].used[k]));
                    }
                }
                assert forall|p: int, k: int|
                    0 <= p < after.len() && 0 <= k < after[p].free.len() implies is_slot_of(
                    after[p].base,
                    #[trigger] after[p].free[k],
                ) by {
                    if p < last {
                        assert(is_slot_of(before[p].base, before[p].free[k]));
                    }
                }
                assert forall|p: int, k: int, l: int|
                    0 <= p < after.len() && 0 <= k < l < after[p].used.len() implies (
                #[trigger] after[p].used[k]) != (#[trigger] after[p].used[l]) by {
                    if p < last {
                        assert(before[p].used[k] != before[p].used[l]);
                    }
                }
                assert forall|p: int, k: int, l: int|
                    0 <= p < after.len() && 0 <= k < l < after[p].free.len() implies (
                #[trigger] after[p].free[k]) != (#[trigger] after[p].free[l]) by {
                    if p < last {
                        assert(before[p].free[k] != before[p].free[l]);
                    }
                }
                assert forall|p: int, k: int, l: int|
                    0 <= p < after.len() && 0 <= k < after[p].used.len() && 0 <= l
                        < after[p].free.len() implies (#[trigger] after[p].used[k]) != (
                #[trigger] after[p].free[l]) by {
                    if p < last {
                        assert(before[p].used[k] != before[p].free[l]);
                    }
                }
            }
        }
        (base, true)
    }
}

/// A slot lies in one page only.
proof fn lemma_pages_apart(a: usize, b: usize, addr: usize)
    requires
        a % PAGE_SIZE == 0,
        b % PAGE_SIZE == 0,
        is_slot_of(a, addr),
        is_slot_of(b, addr),
    ensures
        a == b,
{
}

/// The page whose used slots hold `addr`.
pub open spec fn page_using(pages: Seq<PageView>, addr: usize) -> int {
    choose|i: int| 0 <= i < pages.len() && (#[trigger] pages[i]).used.contains(addr)
}

/// The pool after the slot `addr` was given back. A slot that is not handed
/// out changes nothing. A page of which no slot is handed out any more leaves
/// the pool, unless it is the only page.
pub open spec fn after_free(pages: Seq<PageView>, addr: usize) -> Seq<PageView> {
    if !slot_in_use(pages, addr) {
        pages
    } else {
        let i = page_using(pages, addr);
        let page = PageView {
            base: pages[i].base,
            used: pages[i].used.remove(pages[i].used.index_of(addr)),
            free: pages[i].free.push(addr),
        };
        if page.used.len() == 0 && pages.len() > 1 {
            pages.remove(i)
        } else {
            pages.update(i, page)
        }
    }
}

/// The page that `after_free` lets go, if any.
pub open spec fn page_released(pages: Seq<PageView>, addr: usize) -> Option<usize> {
    if slot_in_use(pages, addr) && pages[page_using(pages, addr)].used.len() == 1 && pages.len()
        > 1 {
        Some(pages[page_using(pages, addr)].base)
    } else {
        None
    }
}

/// Gives a breakpoint slot back.
pub fn free_breakpoint(pool: &mut BreakpointPool, addr: usize, ops: &mut Vec<KernelOp>)
    requires
        old(pool).wf(),
    ensures
        final(pool).wf(),
        final(pool)@ == after_free(old(pool)@, addr),
        final(ops)@ == (match page_released(old(pool)@, addr) {
            Some(base) => old(ops)@.push(KernelOp::FreePage { addr: base }),
            None => old(ops)@,
        }),
        forall|a: usize| slot_in_use(final(pool)@, a) <==> a != addr && slot_in_use(old(pool)@, a),
{
    let ghost before = pool@;
    let mut i: usize = 0;
    let mut found: Option<usize> = None;
    while i < pool.pages.len() && found.is_none()
        invariant
            i <= pool.pages@.len(),
            *pool == *old(pool),
            pool.wf(),
            forall|j: int| 0 <= j < i && found is None ==> !(#[trigger] pool@[j]).used.contains(addr),
            found matches Some(k) ==> i < pool.pages@.len() && k < pool@[i as int].used.len()
                && pool@[i as int].used[k as int] == addr,
        decreases pool.pages@.len() - i + (if found is None { 1int } else { 0int }),
    {
        let mut k: usize = 0;
        while k < pool.pages[i].used.len() && found.is_none()
            invariant
                i < pool.pages@.len(),
                *pool == *old(pool),
                k <= pool@[i as int].used.len(),
                forall|l: int| 0 <= l < k && found is None ==> pool@[i as int].used[l] != addr,
                found matches Some(at) ==> at < pool@[i as int].used.len() && pool@[i as int].used[at as int]
                    == addr,
            decreases pool@[i as int].used.len() - k + (if found is None { 1int } else { 0int }),
        {
            if pool.pages[i].used[k] == addr {
                found = Some(k);
            } else {
                k += 1;
            }
        }
        if found.is_none() {
            i += 1;
        }
    }
    let k = match found {
        Some(k) => k,
        None => {
            assert(!slot_in_use(before, addr));
            return ;
        },
    };
    proof {
        assert(before[i as int].used.contains(addr));
        assert(slot_in_use(before, addr));
        let p = page_using(before, addr);
        assert(before[p].used.contains(addr));
        if p != i {
            let l = choose|l: int| 0 <= l < before[p].used.len() && before[p].used[l] == addr;
            assert(is_slot_of(before[p].base, before[p].used[l]));
            assert(is_slot_of(before[i as int].base, before[i as int].used[k as int]));
            lemma_pages_apart(before[p].base, before[i as int].base, addr);
            if p < i {
                assert(before[p].base != before[i as int].base);
            } else {
                assert(before[i as int].base != before[p].base);
            }
        }
        let at = before[i as int].used.index_of(addr);
        assert(before[i as int].used[at] == addr);
        if at < k {
            assert(before[i as int].used[at] != before[i as int].used[k as int]);
        } else if k < at {
            assert(before[i as int].used[k as int] != before[i as int].used[at]);
        }
    }
    let _ = pool.pages[i].used.remove(k);
    pool.pages[i].free.push(addr);
    let ghost mid = pool@;
    proof {
        assert(mid =~= before.update(
            i as int,
            PageView {
                base: before[i as int].base,
                used: before[i as int].used.remove(k as int),
                free: before[i as int].free.push(addr),
            },
        ));
        assert forall|p: int, q: int| 0 <= p < q < mid.len() implies (#[trigger] mid[p]).base != (
        #[trigger] mid[q]).base by {
            assert(before[p].base != before[q].base);
        }
        assert forall|p: int| 0 <= p < mid.len() implies (#[trigger] mid[p]).base % PAGE_SIZE == 0
            && mid[p].base + PAGE_SIZE <= usize::MAX by {
            assert(before[p].base % PAGE_SIZE == 0);
        }
        assert forall|p: int, a: int|
            0 <= p < mid.len() && 0 <= a < mid[p].used.len() implies is_slot_of(
            mid[p].base,
            #[trigger] mid[p].used[a],
        ) by {
            let a0 = if p == i && a >= k { a + 1 } else { a };
            assert(is_slot_of(before[p].base, before[p].used[a0]));
        }
        assert forall|p: int, a: int|
            0 <= p < mid.len() && 0 <= a < mid[p].free.len() implies is_slot_of(
            mid[p].base,
            #[trigger] mid[p].free[a],
        ) by {
            if p == i && a == mid[p].free.len() - 1 {
                assert(is_slot_of(before[p].base, before[p].used[k as int]));
            } else {
                assert(is_slot_of(before[p].base, before[p].free[a]));
            }
        }
        assert forall|p: int, a: int, b: int|
            0 <= p < mid.len() && 0 <= a < b < mid[p].used.len() implies (
        #[trigger] mid[p].used[a]) != (#[trigger] mid[p].used[b]) by {
            let a0 = if p == i && a >= k { a + 1 } else { a };
            let b0 = if p == i && b >= k { b + 1 } else { b };
            assert(before[p].used[a0] != before[p].used[b0]);
        }
        assert forall|p: int, a: int, b: int|
            0 <= p < mid.len() && 0 <= a < b < mid[p].free.len() implies (
        #[trigger] mid[p].free[a]) != (#[trigger] mid[p].free[b]) by {
            if p == i && b == mid[p].free.len() - 1 {
                assert(before[p].used[k as int] != before[p].free[a]);
            } else {
                assert(before[p].free[a] != before[p].free[b]);
            }
        }
        assert forall|p: int, a: int, b: int|
            0 <= p < mid.len() && 0 <= a < mid[p].used.len() && 0 <= b
                < mid[p].free.len() implies (#[trigger] mid[p].used[a]) != (
        #[trigger] mid[p].free[b]) by {
            let a0 = if p == i && a >= k { a + 1 } else { a };
            if p == i && b == mid[p].free.len() - 1 {
                if a0 < k {
                    assert(before[p].used[a0] != before[p].used[k as int]);
                } else {
                    assert(before[p].used[k as int] != before[p].used[a0]);
                }
            } else {
                assert(before[p].used[a0] != before[p].free[b]);
            }
        }
        assert(pool.wf());
        assert forall|a: usize| slot_in_use(mid, a) <==> a != addr && slot_in_use(before, a) by {
            if slot_in_use(mid, a) {
                let p = choose|p: int| 0 <= p < mid.len() && (#[trigger] mid[p]).used.contains(a);
                let l = choose|l: int| 0 <= l < mid[p].used.len() && mid[p].used[l] == a;
                let l0 = if p == i && l >= k { l + 1 } else { l };
                assert(before[p].used[l0] == a);
                assert(before[p].used.contains(a));
                if a == addr {
                    if p == i {
                        if l0 < k {
                            assert(before[p].used[l0] != before[p].used[k as int]);
                        } else {
                            assert(before[p].used[k as int] != before[p].used[l0]);
                        }
                    } else {
                        assert(is_slot_of(before[p].base, before[p].used[l0]));
                        assert(is_slot_of(before[i as int].base, before[i as int].used[k as int]));
                        lemma_pages_apart(before[p].base, before[i as int].base, addr);
                        if p < i {
                            assert(before[p].base != before[i as int].base);
                        } else {
                            assert(before[i as int].base != before[p].base);
                        }
                    }
                }
            }
            if a != addr && slot_in_use(before, a) {
                let p = choose|p: int| 0 <= p < before.len() && (#[trigger] before[p]).used.contains(a);
                let l = choose|l: int| 0 <= l < before[p].used.len() && before[p].used[l] == a;
                let l1 = if p == i && l > k { l - 1 } else { l };
                assert(mid[p].used[l1] == a);
                assert(mid[p].used.contains(a));
            }
        }
    }
    if pool.pages[i].used.len() == 0 && pool.pages.len() > 1 {
        let page = pool.pages.remove(i);
        dealloc_page(ops, page.base);
        proof {
            let after = pool@;
            assert(after =~= mid.remove(i as int));
            assert(after =~= after_free(before, addr));
            assert forall|p: int, q: int| 0 <= p < q < after.len() implies (#[trigger] after[p]).base
                != (#[trigger] after[q]).base by {
                let from = if p < i { p } else { p + 1 };
                let q0 = if q < i { q } else { q + 1 };
                assert(mid[from].base != mid[q0].base);
            }
            assert forall|p: int| 0 <= p < after.len() implies (#[trigger] after[p]).base
                % PAGE_SIZE == 0 && after[p].base + PAGE_SIZE <= usize::MAX by {
                let from = if p < i { p } else { p + 1 };
                assert(mid[from].base % PAGE_SIZE == 0);
            }
            assert forall|p: int, a: int|
                0 <= p < after.len() && 0 <= a < after[p].used.len() implies is_slot_of(
                after[p].base,
                #[trigger] after[p].used[a],
            ) by {
                let from = if p < i { p } else { p + 1 };
                assert(is_slot_of(mid[from].base, mid[from].used[a]));
            }
            assert forall|p: int, a: int|
                0 <= p < after.len() && 0 <= a < after[p].free.len() implies is_slot_of(
                after[p].base,
                #[trigger] after[p].free[a],
            ) by {
                let from = if p < i { p } else { p + 1 };
                assert(is_slot_of(mid[from].base, mid[from].free[a]));
            }
            assert forall|p: int, a: int, b: int|
                0 <= p < after.len() && 0 <= a < b < after[p].used.len() implies (
            #[trigger] after[p].used[a]) != (#[trigger] after[p].used[b]) by {
                let from = if p < i { p } else { p + 1 };
                assert(mid[from].used[a] != mid[from].used[b]);
            }
            assert forall|p: int, a: int, b: int|
                0 <= p < after.len() && 0 <= a < b < after[p].free.len() implies (
            #[trigger] after[p].free[a]) != (#[trigger] after[p].free[b]) by {
                let from = if p < i { p } else { p + 1 };
                assert(mid[from].free[a] != mid[from].free[b]);
            }
            assert forall|p: int, a: int, b: int|
                0 <= p < after.len() && 0 <= a < after[p].used.len() && 0 <= b
                    < after[p].free.len() implies (#[trigger] after[p].used[a]) != (
            #[trigger] after[p].free[b]) by {
                let from = if p < i { p } else { p + 1 };
                assert(mid[from].used[a] != mid[from].free[b]);
            }
            assert forall|a: usize| slot_in_use(after, a) <==> slot_in_use(mid, a) by {
                if slot_in_use(after, a) {
                    let p = choose|p: int| 0 <= p < after.len() && (#[trigger] after[p]).used.contains(a);
                    let from = if p < i { p } else { p + 1 };
                    assert(mid[from].used.contains(a));
                }
                if slot_in_use(mid, a) {
                    let p = choose|p: int| 0 <= p < mid.len() && (#[trigger] mid[p]).used.contains(a);
                    let l = choose|l: int| 0 <= l < mid[p].used.len() && mid[p].used[l] == a;
                    let to = if p < i { p } else { p - 1 };
                    assert(after[to].used.contains(a));
                }
            }
        }
    } else {
        assert(pool@ =~= after_free(before, addr));
    }
}

} // verus!
