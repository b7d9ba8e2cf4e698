//! The bank of registered applications: every application drawn on the
//! overlay gets an id, is rendered once per frame in registration order, and
//! is unregistered when it asks to close.

use std::collections::HashMap;
use vstd::prelude::*;

verus! {

broadcast use vstd::std_specs::hash::group_hash_axioms;

/// The id under which an application is registered.
pub type ApplicationId = u64;

/// An application drawn on the overlay. Users implement it; the bank only
/// calls these methods.
pub trait App: Sized {
    /// What `render` draws into (the GUI context).
    type Context;
    /// The screen region an application reports after drawing.
    type Region;
    /// What `init` and `deinit` fail with.
    type Error;

    /// Draws the application; returns the region it covers, if any.
    fn render(&mut self, ctx: &Self::Context) -> Option<Self::Region>;

    /// Called on registration. By default it succeeds and changes nothing.
    fn init(&mut self) -> (r: Result<(), Self::Error>)
        default_ensures
            r is Ok,
            *final(self) == *old(self),
    {
        Ok(())
    }

    /// Called on de-registration. By default it succeeds and changes nothing.
    fn deinit(&mut self) -> (r: Result<(), Self::Error>)
        default_ensures
            r is Ok,
            *final(self) == *old(self),
    {
        Ok(())
    }

    /// Called once per frame to determine whether the application should
    /// close. By default it never asks to.
    fn should_close(&self) -> (r: bool)
        default_ensures
            !r,
    {
        false
    }
}

/// Why a bank operation failed.
#[derive(Debug)]
pub enum BankError<E> {
    /// The application's `init` failed; it was not registered.
    Init(E),
    /// No application is registered under this id.
    NoApplication(ApplicationId),
    /// The application was removed, but its `deinit` failed.
    Deinit(E),
}

struct ApplicationEntry<A> {
    id: ApplicationId,
    opaque: A,
}

/// What unregistering reports once the application's `deinit` gave
/// `outcome`.
pub open spec fn deinit_report<E>(outcome: Result<(), E>) -> Result<(), BankError<E>> {
    match outcome {
        Ok(()) => Ok(()),
        Err(e) => Err(BankError::Deinit(e)),
    }
}

/// What unregistering reports once the application's `deinit` gave
/// `outcome`: success, or `deinit`'s error.
pub fn deinit_result<E>(outcome: Result<(), E>) -> (res: Result<(), BankError<E>>)
    ensures
        res == deinit_report(outcome),
{
    match outcome {
        Ok(()) => Ok(()),
        Err(e) => Err(BankError::Deinit(e)),
    }
}

/// A call of `deinit` on the application as it was in `before` returned
/// `outcome`.
pub open spec fn deinit_called<A: App>(before: A, outcome: Result<(), A::Error>) -> bool {
    exists|m: &mut A| *m == before && #[trigger] call_ensures(A::deinit, (m,), outcome)
}

/// The errors a collection of the ids `ids` from the state `m` reports,
/// given what each application's `deinit` returned (`outcomes`, one per
/// turn; ignored at the turns of ids no longer registered): an unknown id
/// for each such turn, and each failed `deinit`'s error, in turn order,
/// each paired with the id whose turn it was.
pub open spec fn collection_report<A: App>(
    m: BankModel<A>,
    ids: Seq<ApplicationId>,
    outcomes: Seq<Result<(), A::Error>>,
) -> Seq<(ApplicationId, BankError<A::Error>)>
    decreases ids.len(),
{
    if ids.len() == 0 {
        Seq::empty()
    } else {
        let rest = collection_report(m, ids.drop_last(), outcomes.drop_last());
        if m.unregistered_all(ids.drop_last()).apps.contains_key(ids.last()) {
            match outcomes.last() {
                Ok(()) => rest,
                Err(e) => rest.push((ids.last(), BankError::Deinit(e))),
            }
        } else {
            rest.push((ids.last(), BankError::NoApplication(ids.last())))
        }
    }
}

/// What registering `app`, whose `init` gave `outcome`, does to the model
/// `m` (giving `n`) and returns (`res`).
pub open spec fn enrolled<A: App>(
    m: BankModel<A>,
    app: A,
    outcome: Result<(), A::Error>,
    res: Result<ApplicationId, BankError<A::Error>>,
    n: BankModel<A>,
) -> bool {
    match outcome {
        Ok(()) => res == Ok::<ApplicationId, BankError<A::Error>>(m.next_id()) && n == m.registered(app),
        Err(e) => res == Err::<ApplicationId, BankError<A::Error>>(BankError::Init(e)) && n == m,
    }
}

/// The abstract state of a bank.
#[verifier::ext_equal]
pub struct BankModel<A> {
    /// Ids of the registered applications, in render order.
    pub ids: Seq<ApplicationId>,
    /// Each registered application by its id.
    pub apps: Map<ApplicationId, A>,
    /// Ids released by unregistration; the last one is handed out next.
    pub free: Seq<ApplicationId>,
    /// Ids of applications that asked to close and await collection.
    pub closing: Seq<ApplicationId>,
}

/// The index at which `id` stands in `ids`.
pub open spec fn position(ids: Seq<ApplicationId>, id: ApplicationId) -> int {
    choose|i: int| 0 <= i < ids.len() && ids[i] == id
}

/// `ids` with the element at `i` replaced by the last one, and the last one dropped.
pub open spec fn swap_removed(ids: Seq<ApplicationId>, i: int) -> Seq<ApplicationId> {
    ids.update(i, ids.last()).drop_last()
}

/// The ids of `ids` whose mark is set, in order.
pub open spec fn pick(ids: Seq<ApplicationId>, marks: Seq<bool>) -> Seq<ApplicationId>
    decreases marks.len(),
{
    if marks.len() == 0 || ids.len() == 0 {
        Seq::empty()
    } else {
        let rest = pick(ids.drop_last(), marks.drop_last());
        if marks.last() {
            rest.push(ids.last())
        } else {
            rest
        }
    }
}

/// The ids carried by the `NoApplication` errors of `errors`, in order.
pub open spec fn unknown_ids<E>(errors: Seq<(ApplicationId, BankError<E>)>) -> Seq<ApplicationId>
    decreases errors.len(),
{
    if errors.len() == 0 {
        Seq::empty()
    } else {
        let rest = unknown_ids(errors.drop_last());
        match errors.last().1 {
            BankError::NoApplication(id) => rest.push(id),
            _ => rest,
        }
    }
}

impl<A> BankModel<A> {
    /// The number of ids handed out so far and not lost: those in use and those free.
    pub open spec fn id_count(self) -> int {
        (self.ids.len() + self.free.len()) as int
    }

    /// The id that the next registration receives.
    pub open spec fn next_id(self) -> ApplicationId {
        if self.free.len() > 0 {
            self.free.last()
        } else {
            self.ids.len() as ApplicationId
        }
    }

    /// Ids are unique, free ids are not in use, and the ids in use together
    /// with the free ids are exactly `0 .. id_count()`.
    pub open spec fn valid(self) -> bool {
        &&& self.ids.no_duplicates()
        &&& self.free.no_duplicates()
        &&& forall|k: ApplicationId| !(#[trigger] self.ids.contains(k) && self.free.contains(k))
        &&& forall|k: ApplicationId|
            (k < self.id_count()) <==> (#[trigger] self.ids.contains(k) || self.free.contains(k))
        &&& forall|k: ApplicationId| #[trigger] self.apps.contains_key(k) <==> self.ids.contains(k)
        &&& self.id_count() <= ApplicationId::MAX
    }

    /// The state after registering `app`.
    pub open spec fn registered(self, app: A) -> BankModel<A> {
        let id = self.next_id();
        BankModel {
            ids: self.ids.push(id),
            apps: self.apps.insert(id, app),
            free: if self.free.len() > 0 {
                self.free.drop_last()
            } else {
                self.free
            },
            closing: self.closing,
        }
    }

    /// The state after unregistering `id`: the last application takes the
    /// removed one's place, and the id becomes the next one handed out.
    pub open spec fn unregistered(self, id: ApplicationId) -> BankModel<A> {
        if self.apps.contains_key(id) {
            BankModel {
                ids: swap_removed(self.ids, position(self.ids, id)),
                apps: self.apps.remove(id),
                free: self.free.push(id),
                closing: self.closing,
            }
        } else {
            self
        }
    }

    /// The state after unregistering each id of `ids` in turn.
    pub open spec fn unregistered_all(self, ids: Seq<ApplicationId>) -> BankModel<A>
        decreases ids.len(),
    {
        if ids.len() == 0 {
            self
        } else {
            self.unregistered_all(ids.drop_last()).unregistered(ids.last())
        }
    }

    /// The ids of `ids` that are no longer registered when their turn comes,
    /// unregistering each id in turn from this state.
    pub open spec fn missing(self, ids: Seq<ApplicationId>) -> Seq<ApplicationId>
        decreases ids.len(),
    {
        if ids.len() == 0 {
            Seq::empty()
        } else {
            let rest = self.missing(ids.drop_last());
            if self.unregistered_all(ids.drop_last()).apps.contains_key(ids.last()) {
                rest
            } else {
                rest.push(ids.last())
            }
        }
    }

    /// The state after a collection: the closing list is emptied and each id
    /// on it is unregistered in turn.
    pub open spec fn collected(self) -> BankModel<A> {
        self.without_closing().unregistered_all(self.closing)
    }

    /// This state with an empty closing list.
    pub open spec fn without_closing(self) -> BankModel<A> {
        BankModel { closing: Seq::empty(), ..self }
    }
}

/// The registered applications, with what lets them be found by id and what
/// lets ids be reused.
pub struct ApplicationBank<A> {
    entries: Vec<ApplicationEntry<A>>,
    index_by_id: HashMap<ApplicationId, usize>,
    free_ids: Vec<ApplicationId>,
    to_free_ids: Vec<ApplicationId>,
}

impl<A> View for ApplicationBank<A> {
    type V = BankModel<A>;

    closed spec fn view(&self) -> BankModel<A> {
        BankModel {
            ids: self.entries@.map_values(|e: ApplicationEntry<A>| e.id),
            apps: Map::new(
                |k: ApplicationId| self.index_by_id@.contains_key(k),
                |k: ApplicationId| self.entries@[self.index_by_id@[k] as int].opaque,
            ),
            free: self.free_ids@,
            closing: self.to_free_ids@,
        }
    }
}

impl<A> Default for ApplicationBank<A> {
    /// An empty bank.
    fn default() -> (bank: ApplicationBank<A>)
        ensures
            bank.wf(),
            bank@.ids == Seq::<ApplicationId>::empty(),
            bank@.apps == Map::<ApplicationId, A>::empty(),
            bank@.free == Seq::<ApplicationId>::empty(),
            bank@.closing == Seq::<ApplicationId>::empty(),
    {
        ApplicationBank::new()
    }
}

impl<A> ApplicationBank<A> {
    /// The bank is consistent: its model is valid and the index finds each entry.
    pub closed spec fn wf(&self) -> bool {
        &&& self@.valid()
        &&& forall|k: ApplicationId| #[trigger]
            self.index_by_id@.contains_key(k) <==> self@.ids.contains(k)
        &&& forall|i: int|
            0 <= i < self.entries@.len() ==> #[trigger] self.index_by_id@[self.entries@[i].id]
                == i
    }

    /// A consistent bank has a valid model, so the laws over models apply to it.
    pub proof fn lemma_valid(&self)
        requires
            self.wf(),
        ensures
            self@.valid(),
    {
    }

    /// An empty bank.
    pub fn new() -> (bank: ApplicationBank<A>)
        ensures
            bank.wf(),
            bank@.ids == Seq::<ApplicationId>::empty(),
            bank@.apps == Map::<ApplicationId, A>::empty(),
            bank@.free == Seq::<ApplicationId>::empty(),
            bank@.closing == Seq::<ApplicationId>::empty(),
    {
        let bank = ApplicationBank {
            entries: Vec::new(),
            index_by_id: HashMap::new(),
            free_ids: Vec::new(),
            to_free_ids: Vec::new(),
        };
        assert(bank@.ids =~= Seq::<ApplicationId>::empty());
        assert(bank@.apps =~= Map::<ApplicationId, A>::empty());
        bank
    }

    /// Whether another application can be registered: fewer ids than the
    /// largest id have been handed out.
    pub fn has_id_space(&self) -> (r: bool)
        requires
            self.wf(),
        ensures
            r == (self@.id_count() < ApplicationId::MAX),
    {
        let used = self.entries.len() as u128 + self.free_ids.len() as u128;
        used < ApplicationId::MAX as u128
    }

    /// Takes the next id: the most recently freed one, or else the number of
    /// registered applications (then no id below it is free, so it is unused).
    fn fetch_id(&mut self) -> (id: ApplicationId)
        requires
            old(self).wf(),
        ensures
            id == old(self)@.next_id(),
            final(self).free_ids@ == (if old(self).free_ids@.len() > 0 {
                old(self).free_ids@.drop_last()
            } else {
                old(self).free_ids@
            }),
            final(self).entries == old(self).entries,
            final(self).index_by_id == old(self).index_by_id,
            final(self).to_free_ids == old(self).to_free_ids,
    {
        if let Some(id) = self.free_ids.pop() {
            return id;
        }
        self.entries.len() as ApplicationId
    }

    /// Calls the application's `init`, then lets `enroll` register it under
    /// the next id if `init` succeeded.
    pub fn register(&mut self, app: A) -> (res: Result<ApplicationId, BankError<A::Error>>)
        where A: App
        requires
            old(self).wf(),
            old(self)@.id_count() < ApplicationId::MAX,
        ensures
            final(self).wf(),
            exists|m: &mut A, outcome: Result<(), A::Error>|
                *m == app && #[trigger] call_ensures(A::init, (m,), outcome) && enrolled(
                    old(self)@,
                    *final(m),
                    outcome,
                    res,
                    final(self)@,
                ),
    {
        let ghost before = app;
        let mut app = app;
        let outcome = app.init();
        proof {
            assert(exists|m: &mut A| *m == before && *final(m) == app && #[trigger] call_ensures(A::init, (m,), outcome));
        }
        let ghost after = app;
        let ghost old_model = self@;
        let res = self.enroll(app, outcome);
        assert(enrolled(old_model, after, outcome, res, self@));
        res
    }

    /// Registers `app`, whose `init` gave `outcome`: on success it is stored
    /// under the next id, which is returned; on failure the bank is unchanged
    /// and `init`'s error is returned.
    pub fn enroll(&mut self, app: A, outcome: Result<(), A::Error>) -> (res: Result<ApplicationId, BankError<A::Error>>)
        where A: App
        requires
            old(self).wf(),
            old(self)@.id_count() < ApplicationId::MAX,
        ensures
            final(self).wf(),
            outcome is Ok ==> {
                &&& res matches Ok(id) && id == old(self)@.next_id()
                &&& !old(self)@.apps.contains_key(old(self)@.next_id())
                &&& final(self)@ =~= old(self)@.registered(app)
            },
            outcome matches Err(e) ==> {
                &&& res matches Err(BankError::Init(x)) && x == e
                &&& final(self)@ =~= old(self)@
            },
    {
        if let Err(e) = outcome {
            return Err(BankError::Init(e));
        }
        let ghost old_model = self@;
        let id = self.fetch_id();
        proof {
            lemma_next_id_fresh(old_model);
        }
        let index = self.entries.len();
        self.index_by_id.insert(id, index);
        self.entries.push(ApplicationEntry { id, opaque: app });
        proof {
            let new_model = self@;
            let expect = old_model.registered(new_model.apps[id]);
            assert(new_model.ids =~= expect.ids);
            assert(new_model.apps =~= expect.apps);
            assert(new_model.free =~= expect.free);
            assert forall|i: int| 0 <= i < self.entries@.len() implies
                #[trigger] self.index_by_id@[self.entries@[i].id] == i by {
                if i < index {
                    assert(old_model.ids[i] == self.entries@[i].id);
                    assert(old_model.ids.contains(self.entries@[i].id));
                }
            }
            assert forall|k: ApplicationId| #[trigger] self.index_by_id@.contains_key(k)
                <==> new_model.ids.contains(k) by {
                if old_model.ids.contains(k) {
                    let j = choose|j: int| 0 <= j < old_model.ids.len() && old_model.ids[j] == k;
                    assert(new_model.ids[j] == k);
                }
                if new_model.ids.contains(k) && k != id {
                    let j = choose|j: int| 0 <= j < new_model.ids.len() && new_model.ids[j] == k;
                    assert(old_model.ids[j] == k);
                }
                if k == id {
                    assert(new_model.ids[new_model.ids.len() - 1] == k);
                }
            }
            lemma_registered_valid(old_model, new_model.apps[id]);
        }
        Ok(id)
    }

    /// Removes the application registered under `id`, moving the last
    /// application into its place, frees the id, then calls the removed
    /// application's `deinit`.
    pub fn unregister(&mut self, id: ApplicationId) -> (res: Result<(), BankError<A::Error>>)
        where A: App
        requires
            old(self).wf(),
        ensures
            final(self).wf(),
            final(self)@ =~= old(self)@.unregistered(id),
            old(self)@.apps.contains_key(id) ==> (res is Ok || res matches Err(BankError::Deinit(_))),
            !old(self)@.apps.contains_key(id) ==> (res matches Err(BankError::NoApplication(x)) && x == id),
            old(self)@.apps.contains_key(id) ==> exists|outcome: Result<(), A::Error>|
                #[trigger] deinit_called(old(self)@.apps[id], outcome) && res == deinit_report(outcome),
    {
        match self.detach(id) {
            Err(e) => Err(e),
            Ok(app) => {
                let ghost before = app;
                let mut app = app;
                let outcome = app.deinit();
                proof {
                    assert(exists|m: &mut A| *m == before && *final(m) == app && #[trigger] call_ensures(A::deinit, (m,), outcome));
                    assert(deinit_called(before, outcome));
                }
                deinit_result(outcome)
            },
        }
    }

    /// Removes the application registered under `id` and hands it back,
    /// moving the last application into its place and freeing the id.
    pub fn detach(&mut self, id: ApplicationId) -> (res: Result<A, BankError<A::Error>>)
        where A: App
        requires
            old(self).wf(),
        ensures
            final(self).wf(),
            final(self)@ =~= old(self)@.unregistered(id),
            old(self)@.apps.contains_key(id) ==> (res matches Ok(app) && app == old(self)@.apps[id]),
            !old(self)@.apps.contains_key(id) ==> (res matches Err(BankError::NoApplication(x)) && x == id),
    {
        let ghost old_model = self@;
        let ghost old_entries = self.entries@;
        let ghost old_index = self.index_by_id@;
        let index = match self.index_by_id.remove(&id) {
            Some(index) => index,
            None => {
                assert(!old_model.apps.contains_key(id));
                assert(self.index_by_id@ =~= old_index);
                return Err(BankError::NoApplication(id));
            },
        };
        proof {
            let j = choose|j: int| 0 <= j < old_model.ids.len() && old_model.ids[j] == id;
            assert(old_entries[j].id == id);
            assert(old_index[old_entries[j].id] == j);
            assert(position(old_model.ids, id) == index as int);
            lemma_swap_removed(old_model.ids, index as int);
        }
        let index_to_fix = self.entries.len() - 1;
        let entry = self.entries.swap_remove(index);
        if index != index_to_fix {
            let moved_app_id = self.entries[index].id;
            self.index_by_id.insert(moved_app_id, index);
        }
        self.free_ids.push(id);
        proof {
            let new_model = self@;
            let expect = old_model.unregistered(id);
            let last = old_entries.len() - 1;
            assert(new_model.ids =~= expect.ids);
            assert forall|i: int| 0 <= i < self.entries@.len() implies
                #[trigger] self.index_by_id@[self.entries@[i].id] == i by {
                if i == index as int {
                    assert(self.entries@[i] == old_entries[last]);
                } else {
                    assert(self.entries@[i] == old_entries[i]);
                    assert(old_entries[i].id != old_entries[last].id);
                    assert(old_entries[i].id != id);
                }
            }
            assert forall|k: ApplicationId| #[trigger] self.index_by_id@.contains_key(k)
                <==> new_model.ids.contains(k) by {
                assert(old_model.ids.contains(k) <==> old_index.contains_key(k));
            }
            assert forall|k: ApplicationId| #[trigger] new_model.apps.contains_key(k)
                implies new_model.apps[k] == expect.apps[k] by {
                assert(new_model.ids.contains(k));
                let a = choose|a: int| 0 <= a < new_model.ids.len() && new_model.ids[a] == k;
                assert(self.index_by_id@[self.entries@[a].id] == a);
                let sa = if a == index as int { last } else { a };
                assert(self.entries@[a] == old_entries[sa]);
                assert(old_index[old_entries[sa].id] == sa);
            }
            assert(new_model.apps =~= expect.apps);
            assert(new_model.free =~= expect.free);
            lemma_unregistered_valid(old_model, id);
        }
        proof {
            assert(old_index[id] == index);
        }
        Ok(entry.opaque)
    }

    /// Renders every application in order into `ctx`. Each application is
    /// rendered by exactly one call, made on its state before this frame,
    /// which reported the region stored in its slot of `rects` and left the
    /// application in its new state; that new state is then asked once
    /// whether it should close, and the id of every application that answers
    /// yes is queued for collection.
    #[verifier::spinoff_prover]
    pub fn render(&mut self, ctx: &A::Context, rects: &mut Vec<Option<A::Region>>)
        where A: App
        requires
            old(self).wf(),
        ensures
            final(self).wf(),
            final(self)@.ids == old(self)@.ids,
            final(self)@.apps.dom() == old(self)@.apps.dom(),
            final(self)@.free == old(self)@.free,
            final(rects)@.len() == old(self)@.ids.len(),
            exists|marks: Seq<bool>, calls: Seq<&mut A>|
                #![trigger pick(old(self)@.ids, marks), calls.len()]
                {
                    &&& marks.len() == old(self)@.ids.len()
                    &&& calls.len() == old(self)@.ids.len()
                    &&& final(self)@.closing == old(self)@.closing + pick(old(self)@.ids, marks)
                    &&& forall|i: int|
                        #![trigger calls[i]]
                        #![trigger final(rects)@[i]]
                        #![trigger marks[i]]
                        0 <= i < calls.len() ==> {
                            &&& *calls[i] == old(self)@.apps[old(self)@.ids[i]]
                            &&& call_ensures(A::render, (calls[i], ctx), final(rects)@[i])
                            &&& *final(calls[i]) == final(self)@.apps[old(self)@.ids[i]]
                            &&& call_ensures(
                                A::should_close,
                                (&final(self)@.apps[old(self)@.ids[i]],),
                                marks[i],
                            )
                        }
                },
    {
        let ghost old_model = self@;
        let len = self.entries.len();
        rects.truncate(len);
        while rects.len() < len
            invariant
                rects@.len() <= len,
            decreases len - rects@.len(),
        {
            rects.push(None);
        }
        let ghost mut marks: Seq<bool> = Seq::empty();
        let ghost old_entries = self.entries@;
        assert(self@.closing =~= old_model.closing + pick(old_model.ids.take(0), marks));
        assert(Seq::<&mut A>::empty().len() == 0);
        let mut i: usize = 0;
        while i < len
            invariant
                i <= len,
                len == self.entries@.len(),
                len == old_model.ids.len(),
                rects@.len() == len,
                self.wf(),
                self@.ids == old_model.ids,
                self@.apps.dom() == old_model.apps.dom(),
                self@.free == old_model.free,
                marks.len() == i,
                self@.closing == old_model.closing + pick(old_model.ids.take(i as int), marks),
                forall|j: int|
                    #![trigger marks[j]]
                    0 <= j < i ==> call_ensures(A::should_close, (&self.entries@[j].opaque,), marks[j]),
                exists|calls: Seq<&mut A>|
                    #![trigger calls.len()]
                    {
                        &&& calls.len() == i
                        &&& forall|j: int|
                            #![trigger calls[j]]
                            0 <= j < i ==> {
                                &&& *calls[j] == old_entries[j].opaque
                                &&& *final(calls[j]) == self.entries@[j].opaque
                                &&& call_ensures(A::render, (calls[j], ctx), rects@[j])
                            }
                    },
                old_entries.len() == len,
                forall|j: int| i <= j < len ==> #[trigger] self.entries@[j] == old_entries[j],
            decreases len - i,
        {
            let ghost before = self@;
            let ghost entries_before = self.entries@;
            let ghost app_before = self.entries@[i as int].opaque;
            let ghost rects_before = rects@;
            let region = self.entries[i].opaque.render(ctx);
            let ghost app_after = self.entries@[i as int].opaque;
            proof {
                assert(exists|m: &mut A|
                    *m == app_before && *final(m) == app_after && #[trigger] call_ensures(A::render, (m, ctx), region));
            }
            rects.set(i, region);
            let close = self.entries[i].opaque.should_close();
            assert(self.entries@.map_values(|e: ApplicationEntry<A>| e.id) =~= before.ids);
            if close {
                let id = self.entries[i].id;
                self.to_free_ids.push(id);
            }
            proof {
                let ids_next = old_model.ids.take(i + 1);
                assert(ids_next.drop_last() =~= old_model.ids.take(i as int));
                assert(marks.push(close).drop_last() =~= marks);
                marks = marks.push(close);
                assert(self@.ids =~= old_model.ids);
                assert(self@.apps.dom() =~= old_model.apps.dom());
                assert(self@.closing =~= old_model.closing + pick(ids_next, marks));
                let calls_before = choose|calls: Seq<&mut A>|
                    {
                        &&& calls.len() == i
                        &&& forall|j: int|
                            #![trigger calls[j]]
                            0 <= j < i ==> {
                                &&& *calls[j] == old_entries[j].opaque
                                &&& *final(calls[j]) == entries_before[j].opaque
                                &&& call_ensures(A::render, (calls[j], ctx), rects_before[j])
                            }
                    };
                let m = choose|m: &mut A|
                    *m == app_before && *final(m) == app_after && #[trigger] call_ensures(A::render, (m, ctx), region);
                let calls = calls_before.push(m);
                assert(calls.len() == i + 1);
                assert forall|j: int|
                    #![trigger calls[j]]
                    0 <= j < i + 1 implies {
                        &&& *calls[j] == old_entries[j].opaque
                        &&& *final(calls[j]) == self.entries@[j].opaque
                        &&& call_ensures(A::render, (calls[j], ctx), rects@[j])
                    } by {
                    if j < i {
                        assert(calls[j] == calls_before[j]);
                        assert(rects_before[j] == rects@[j]);
                        assert(entries_before[j] == self.entries@[j]);
                    } else {
                        assert(calls[j] == m);
                        assert(rects@[j] == region);
                        assert(app_before == old_entries[j].opaque);
                        assert(app_after == self.entries@[j].opaque);
                    }
                }
            }
            i = i + 1;
        }
        assert(old_model.ids.take(len as int) =~= old_model.ids);
        assert forall|j: int| 0 <= j < len implies old_model.apps[old_model.ids[j]] == old_entries[j].opaque by {
            assert(old_entries[j].id == old_model.ids[j]);
        }
        assert forall|j: int| 0 <= j < len implies self@.apps[old_model.ids[j]] == self.entries@[j].opaque by {
            assert(self.entries@[j].id == old_model.ids[j]);
            assert(self.index_by_id@[self.entries@[j].id] == j);
        }
        assert(self@.closing == old_model.closing + pick(old_model.ids, marks));
        let ghost calls = choose|calls: Seq<&mut A>|
            {
                &&& calls.len() == len
                &&& forall|j: int|
                    #![trigger calls[j]]
                    0 <= j < len ==> {
                        &&& *calls[j] == old_entries[j].opaque
                        &&& *final(calls[j]) == self.entries@[j].opaque
                        &&& call_ensures(A::render, (calls[j], ctx), rects@[j])
                    }
            };
        assert forall|i: int|
            #![trigger calls[i]]
            #![trigger rects@[i]]
            #![trigger marks[i]]
            0 <= i < calls.len() implies {
                &&& *calls[i] == old_model.apps[old_model.ids[i]]
                &&& call_ensures(A::render, (calls[i], ctx), rects@[i])
                &&& *final(calls[i]) == self@.apps[old_model.ids[i]]
                &&& call_ensures(A::should_close, (&self@.apps[old_model.ids[i]],), marks[i])
            } by {
            assert(old_model.apps[old_model.ids[i]] == old_entries[i].opaque);
            assert(self@.apps[old_model.ids[i]] == self.entries@[i].opaque);
        }
    }

    /// Unregisters, in order, every application that asked to close since the
    /// last collection, and empties that list. Returns the errors met on the
    /// way, each with the id whose turn it was: an id that is no longer
    /// registered when its turn comes, or a failed `deinit`.
    #[verifier::spinoff_prover]
    pub fn garbage_collect(&mut self) -> (errors: Vec<(ApplicationId, BankError<A::Error>)>)
        where A: App
        requires
            old(self).wf(),
        ensures
            final(self).wf(),
            final(self)@ =~= old(self)@.collected(),
            unknown_ids(errors@) == old(self)@.without_closing().missing(old(self)@.closing),
            forall|i: int| 0 <= i < errors@.len() ==> !(#[trigger] errors@[i].1 is Init),
            exists|outcomes: Seq<Result<(), A::Error>>|
                {
                    &&& outcomes.len() == old(self)@.closing.len()
                    &&& forall|k: int|
                        0 <= k < outcomes.len() && old(self)@.without_closing().unregistered_all(
                            old(self)@.closing.take(k),
                        ).apps.contains_key(old(self)@.closing[k]) ==> #[trigger] deinit_called(
                            old(self)@.without_closing().unregistered_all(old(self)@.closing.take(k)).apps[old(
                                self,
                            )@.closing[k]],
                            outcomes[k],
                        )
                    &&& errors@ == collection_report(old(self)@.without_closing(), old(self)@.closing, outcomes)
                },
    {
        let ghost start = self@.without_closing();
        let mut ids: Vec<ApplicationId> = Vec::new();
        std::mem::swap(&mut ids, &mut self.to_free_ids);
        let mut errors: Vec<(ApplicationId, BankError<A::Error>)> = Vec::new();
        let ghost mut outcomes: Seq<Result<(), A::Error>> = Seq::empty();
        assert(self@ =~= start.unregistered_all(ids@.take(0)));
        assert(errors@ =~= collection_report(start, ids@.take(0), outcomes));
        let n = ids.len();
        for k in 0..n
            invariant
                n == ids@.len(),
                ids@ == old(self)@.closing,
                self.wf(),
                self@ =~= start.unregistered_all(ids@.take(k as int)),
                unknown_ids(errors@) == start.missing(ids@.take(k as int)),
                forall|i: int| 0 <= i < errors@.len() ==> !(#[trigger] errors@[i].1 is Init),
                outcomes.len() == k,
                forall|j: int|
                    0 <= j < k && start.unregistered_all(ids@.take(j)).apps.contains_key(ids@[j])
                        ==> #[trigger] deinit_called(start.unregistered_all(ids@.take(j)).apps[ids@[j]], outcomes[j]),
                errors@ == collection_report(start, ids@.take(k as int), outcomes),
        {
            let ghost before = self@;
            let ghost errors_before = errors@;
            let ghost outcomes_before = outcomes;
            let res = self.unregister(ids[k]);
            proof {
                if before.apps.contains_key(ids@[k as int]) {
                    let o = choose|o: Result<(), A::Error>| #[trigger] deinit_called(before.apps[ids@[k as int]], o)
                        && res == deinit_report(o);
                    outcomes = outcomes.push(o);
                } else {
                    let o: Result<(), A::Error> = Ok(());
                    outcomes = outcomes.push(o);
                }
            }
            match res {
                Ok(()) => {},
                Err(e) => {
                    errors.push((ids[k], e));
                },
            }
            proof {
                let taken = ids@.take(k + 1);
                assert(taken.drop_last() =~= ids@.take(k as int));
                assert(taken.last() == ids@[k as int]);
                if errors@.len() > errors_before.len() {
                    assert(errors@.drop_last() =~= errors_before);
                } else {
                    assert(errors@ =~= errors_before);
                }
                assert(outcomes.drop_last() =~= outcomes_before);
                assert(taken.take(k as int) =~= ids@.take(k as int));
                assert(collection_report(start, taken, outcomes) == {
                    let rest = collection_report(start, ids@.take(k as int), outcomes_before);
                    if before.apps.contains_key(ids@[k as int]) {
                        match outcomes.last() {
                            Ok(()) => rest,
                            Err(e) => rest.push((ids@[k as int], BankError::Deinit(e))),
                        }
                    } else {
                        rest.push((ids@[k as int], BankError::NoApplication(ids@[k as int])))
                    }
                });
                assert(errors@ =~= collection_report(start, taken, outcomes));
                assert forall|j: int|
                    0 <= j < k + 1 && start.unregistered_all(ids@.take(j)).apps.contains_key(ids@[j])
                        implies #[trigger] deinit_called(start.unregistered_all(ids@.take(j)).apps[ids@[j]], outcomes[j]) by {
                    if j < k {
                        assert(outcomes[j] == outcomes_before[j]);
                    }
                }
            }
        }
        assert(ids@.take(n as int) =~= ids@);
        errors
    }
}

/// The ids queued from `ids` by the answers `marks` (one per application)
/// are exactly the ids of the applications that answered yes: an id is
/// queued if and only if it stands at a position whose answer is yes. No
/// more are queued than there are applications.
pub proof fn lemma_pick_members(ids: Seq<ApplicationId>, marks: Seq<bool>)
    requires
        ids.len() == marks.len(),
    ensures
        pick(ids, marks).len() <= ids.len(),
        forall|k: ApplicationId|
            #[trigger] pick(ids, marks).contains(k) <==> exists|i: int|
                0 <= i < ids.len() && marks[i] && #[trigger] ids[i] == k,
    decreases ids.len(),
{
    if ids.len() > 0 {
        let n = ids.len() - 1;
        let ids0 = ids.drop_last();
        let marks0 = marks.drop_last();
        lemma_pick_members(ids0, marks0);
        let rest = pick(ids0, marks0);
        assert forall|k: ApplicationId|
            #[trigger] pick(ids, marks).contains(k) <==> exists|i: int|
                0 <= i < ids.len() && marks[i] && #[trigger] ids[i] == k by {
            if pick(ids, marks).contains(k) {
                let j = choose|j: int| 0 <= j < pick(ids, marks).len() && pick(ids, marks)[j] == k;
                if marks.last() && j == rest.len() {
                    assert(ids[n] == k);
                } else {
                    assert(rest[j] == k);
                    assert(rest.contains(k));
                    let i = choose|i: int| 0 <= i < ids0.len() && marks0[i] && #[trigger] ids0[i] == k;
                    assert(ids[i] == k && marks[i]);
                }
            }
            if exists|i: int| 0 <= i < ids.len() && marks[i] && #[trigger] ids[i] == k {
                let i = choose|i: int| 0 <= i < ids.len() && marks[i] && #[trigger] ids[i] == k;
                if i == n {
                    assert(pick(ids, marks) == rest.push(ids[n]));
                    assert(pick(ids, marks)[rest.len() as int] == k);
                } else {
                    assert(ids0[i] == k && marks0[i]);
                    assert(rest.contains(k));
                    let j = choose|j: int| 0 <= j < rest.len() && rest[j] == k;
                    if marks.last() {
                        assert(pick(ids, marks)[j] == k);
                    } else {
                        assert(pick(ids, marks)[j] == k);
                    }
                }
            }
        }
    }
}

/// Every id a frame queues for collection from a valid bank `m` belongs to
/// a registered application, namely the one at whose position the answer was
/// yes; and every application that answered yes has its own id queued.
pub proof fn lemma_queued_ids_registered<A>(m: BankModel<A>, marks: Seq<bool>)
    requires
        m.valid(),
        marks.len() == m.ids.len(),
    ensures
        forall|k: ApplicationId| #[trigger] pick(m.ids, marks).contains(k) ==> m.apps.contains_key(k),
        forall|i: int| 0 <= i < m.ids.len() && #[trigger] marks[i] ==> pick(m.ids, marks).contains(m.ids[i]),
{
    lemma_pick_members(m.ids, marks);
    assert forall|k: ApplicationId| #[trigger] pick(m.ids, marks).contains(k) implies m.apps.contains_key(k) by {
        let i = choose|i: int| 0 <= i < m.ids.len() && marks[i] && #[trigger] m.ids[i] == k;
        assert(m.ids.contains(k));
    }
}

/// Removing the element at `i` by moving the last one into its place keeps
/// the sequence free of duplicates and drops exactly that element.
pub proof fn lemma_swap_removed(s: Seq<ApplicationId>, i: int)
    requires
        s.no_duplicates(),
        0 <= i < s.len(),
    ensures
        swap_removed(s, i).len() == s.len() - 1,
        swap_removed(s, i).no_duplicates(),
        forall|k: ApplicationId| #[trigger] swap_removed(s, i).contains(k) <==> (s.contains(k) && k != s[i]),
{
    let r = swap_removed(s, i);
    let last = s.len() - 1;
    assert forall|a: int, b: int| 0 <= a < r.len() && 0 <= b < r.len() && a != b implies r[a] != r[b] by {
        let sa = if a == i { last } else { a };
        let sb = if b == i { last } else { b };
        assert(r[a] == s[sa]);
        assert(r[b] == s[sb]);
    }
    assert forall|k: ApplicationId| #[trigger] r.contains(k) <==> (s.contains(k) && k != s[i]) by {
        if r.contains(k) {
            let a = choose|a: int| 0 <= a < r.len() && r[a] == k;
            let sa = if a == i { last } else { a };
            assert(s[sa] == k);
        }
        if s.contains(k) && k != s[i] {
            let a = choose|a: int| 0 <= a < s.len() && s[a] == k;
            if a == last {
                assert(r[i] == k);
            } else {
                assert(r[a] == k);
            }
        }
    }
}

/// Registering keeps the model valid, as long as the id space is not exhausted.
pub proof fn lemma_registered_valid<A>(m: BankModel<A>, app: A)
    requires
        m.valid(),
        m.id_count() < ApplicationId::MAX,
    ensures
        m.registered(app).valid(),
{
    let old_model = m;
    let new_model = m.registered(app);
    let id = m.next_id();
    lemma_next_id_fresh(m);
    assert forall|k: ApplicationId|
        (k < new_model.id_count()) <==> (#[trigger] new_model.ids.contains(k)
            || new_model.free.contains(k)) by {
        if old_model.free.len() > 0 {
            if old_model.free.contains(k) && k != id {
                let j = choose|j: int| 0 <= j < old_model.free.len() && old_model.free[j] == k;
                assert(new_model.free[j] == k);
            }
            if new_model.free.contains(k) {
                assert(old_model.free.contains(k));
            }
        }
        if old_model.ids.contains(k) {
            let j = choose|j: int| 0 <= j < old_model.ids.len() && old_model.ids[j] == k;
            assert(new_model.ids[j] == k);
        }
        if k == id {
            assert(new_model.ids[new_model.ids.len() - 1] == k);
        }
    }
    assert(new_model.ids.no_duplicates());
    assert(new_model.free.no_duplicates());
    assert(new_model.id_count() <= ApplicationId::MAX);
    assert forall|k: ApplicationId| !(#[trigger] new_model.ids.contains(k)
        && new_model.free.contains(k)) by {
        if new_model.ids.contains(k) && new_model.free.contains(k) {
            let j = choose|j: int| 0 <= j < new_model.free.len() && new_model.free[j] == k;
            assert(old_model.free[j] == k);
            assert(old_model.free.contains(k));
            if k != id {
                let i = choose|i: int| 0 <= i < new_model.ids.len() && new_model.ids[i] == k;
                assert(old_model.ids[i] == k);
                assert(old_model.ids.contains(k));
            } else {
                assert(old_model.free.len() > 0);
                assert(old_model.free[old_model.free.len() - 1] == k);
                assert(j != old_model.free.len() - 1);
            }
        }
    }
    assert(forall|k: ApplicationId| #[trigger] new_model.apps.contains_key(k) <==> new_model.ids.contains(k));
    assert(new_model.valid());
}

/// Unregistering keeps the model valid.
pub proof fn lemma_unregistered_valid<A>(m: BankModel<A>, id: ApplicationId)
    requires
        m.valid(),
    ensures
        m.unregistered(id).valid(),
{
    if m.apps.contains_key(id) {
        let old_model = m;
        let new_model = m.unregistered(id);
        let index = position(m.ids, id);
        lemma_swap_removed(m.ids, index);
    assert forall|a: int, b: int| 0 <= a < new_model.free.len() && 0 <= b < new_model.free.len()
        && a != b implies new_model.free[a] != new_model.free[b] by {
        if a == old_model.free.len() as int {
            assert(!old_model.free.contains(id) || !old_model.ids.contains(id));
            assert(old_model.free[b] == new_model.free[b]);
            assert(old_model.ids.contains(id));
        } else if b == old_model.free.len() as int {
            assert(old_model.ids.contains(id));
            assert(old_model.free[a] == new_model.free[a]);
        }
    }
    assert forall|k: ApplicationId| !(#[trigger] new_model.ids.contains(k)
        && new_model.free.contains(k)) by {
        if new_model.free.contains(k) && k != id {
            let a = choose|a: int| 0 <= a < new_model.free.len() && new_model.free[a] == k;
            assert(old_model.free[a] == k);
            assert(old_model.free.contains(k));
        }
    }
    assert forall|k: ApplicationId|
        (k < new_model.id_count()) <==> (#[trigger] new_model.ids.contains(k)
            || new_model.free.contains(k)) by {
        assert(new_model.ids.contains(k) == swap_removed(old_model.ids, index).contains(k));
        if old_model.free.contains(k) {
            let a = choose|a: int| 0 <= a < old_model.free.len() && old_model.free[a] == k;
            assert(new_model.free[a] == k);
        }
        if new_model.free.contains(k) && k != id {
            let a = choose|a: int| 0 <= a < new_model.free.len() && new_model.free[a] == k;
            assert(old_model.free[a] == k);
        }
        if k == id {
            assert(new_model.free[new_model.free.len() - 1] == k);
            assert(old_model.ids.contains(k));
        }
    }
    }
}

/// Unregistering the application just registered restores the registered
/// applications and their order, and the same id is handed out next; the
/// free list is restored too unless it was empty (the id then becomes free).
pub proof fn lemma_unregister_undoes_register<A>(m: BankModel<A>, app: A)
    requires
        m.valid(),
        m.id_count() < ApplicationId::MAX,
    ensures
        m.registered(app).unregistered(m.next_id()).ids == m.ids,
        m.registered(app).unregistered(m.next_id()).apps == m.apps,
        m.registered(app).unregistered(m.next_id()).closing == m.closing,
        m.registered(app).unregistered(m.next_id()).next_id() == m.next_id(),
        m.free.len() > 0 ==> m.registered(app).unregistered(m.next_id()).free == m.free,
{
    let id = m.next_id();
    let r = m.registered(app);
    let back = r.unregistered(id);
    lemma_next_id_fresh(m);
    lemma_registered_valid(m, app);
    let last = r.ids.len() - 1;
    assert(r.ids[last] == id);
    let p = position(r.ids, id);
    assert(r.ids[p] == id);
    assert(p == last);
    assert(back.ids =~= m.ids);
    assert(back.apps =~= m.apps);
    if m.free.len() > 0 {
        assert(back.free =~= m.free);
    }
}

/// After an application is unregistered, the next registration receives its id.
pub proof fn lemma_unregistered_id_reused<A>(m: BankModel<A>, id: ApplicationId, app: A)
    requires
        m.valid(),
        m.apps.contains_key(id),
    ensures
        m.unregistered(id).next_id() == id,
        m.unregistered(id).registered(app).apps == m.apps.insert(id, app),
        !m.unregistered(id).apps.contains_key(id),
{
    let u = m.unregistered(id);
    assert(u.free.last() == id);
    assert(u.registered(app).apps =~= m.apps.insert(id, app));
}

/// Unregistering a list of ids keeps the model valid and leaves registered
/// exactly the applications whose id is not on the list.
pub proof fn lemma_unregistered_all<A>(m: BankModel<A>, ids: Seq<ApplicationId>)
    requires
        m.valid(),
    ensures
        m.unregistered_all(ids).valid(),
        forall|k: ApplicationId| #[trigger] m.unregistered_all(ids).apps.contains_key(k)
            <==> (m.apps.contains_key(k) && !ids.contains(k)),
    decreases ids.len(),
{
    if ids.len() > 0 {
        let prefix = ids.drop_last();
        lemma_unregistered_all(m, prefix);
        lemma_unregistered_valid(m.unregistered_all(prefix), ids.last());
        assert forall|k: ApplicationId| #[trigger] m.unregistered_all(ids).apps.contains_key(k)
            <==> (m.apps.contains_key(k) && !ids.contains(k)) by {
            if prefix.contains(k) {
                let j = choose|j: int| 0 <= j < prefix.len() && prefix[j] == k;
                assert(ids[j] == k);
            }
            if ids.contains(k) && k != ids.last() {
                let j = choose|j: int| 0 <= j < ids.len() && ids[j] == k;
                assert(j != ids.len() - 1);
                assert(prefix[j] == k);
            }
            assert(ids.contains(ids.last()) ) by {
                assert(ids[ids.len() - 1] == ids.last());
            }
        }
    }
}

/// A collection keeps the model valid, empties the closing list, and leaves
/// registered exactly the applications that were not on it.
pub proof fn lemma_collected<A>(m: BankModel<A>)
    requires
        m.valid(),
    ensures
        m.collected().valid(),
        m.collected().closing == Seq::<ApplicationId>::empty(),
        forall|k: ApplicationId| #[trigger] m.collected().apps.contains_key(k)
            <==> (m.apps.contains_key(k) && !m.closing.contains(k)),
{
    lemma_unregistered_all(m.without_closing(), m.closing);
    lemma_closing_untouched(m.without_closing(), m.closing);
}

/// Unregistering never changes the closing list.
pub proof fn lemma_closing_untouched<A>(m: BankModel<A>, ids: Seq<ApplicationId>)
    ensures
        m.unregistered_all(ids).closing == m.closing,
    decreases ids.len(),
{
    if ids.len() > 0 {
        lemma_closing_untouched(m, ids.drop_last());
    }
}

/// The next id is not in use, and is below the number of ids handed out
/// (or, when none is free, equal to it).
pub proof fn lemma_next_id_fresh<A>(m: BankModel<A>)
    requires
        m.valid(),
    ensures
        !m.ids.contains(m.next_id()),
        !m.apps.contains_key(m.next_id()),
        m.free.len() > 0 ==> m.free.contains(m.next_id()),
        m.free.len() == 0 ==> m.next_id() == m.ids.len(),
{
    if m.free.len() > 0 {
        assert(m.free.contains(m.free.last()));
    } else {
        let k = m.ids.len() as ApplicationId;
        assert(!(k < m.id_count()));
    }
}

} // verus!
