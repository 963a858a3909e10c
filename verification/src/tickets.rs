//! The refreshes under way, and what a caller who needs a valid token has
//! to do: use the stored token, refresh it, or wait for the refresh that
//! another caller started.

use vstd::prelude::*;
use crate::error::AccountError;
use crate::freshness::{classify, freshness_at, Freshness};
use crate::store::{AccountStore, StoreView};
use crate::text::{same_text, texts};

verus! {

/// The refreshes that are under way: one ticket for each uuid whose token
/// is being exchanged at the provider.
///
/// No uuid has two tickets.
#[derive(Debug)]
pub struct RefreshTickets {
    pending: Vec<String>,
}

impl View for RefreshTickets {
    type V = Set<Seq<char>>;

    closed spec fn view(&self) -> Set<Seq<char>> {
        texts(self.pending@).to_set()
    }
}

/// The position of `uuid` among `pending`, if it is there.
fn ticket_position(pending: &Vec<String>, uuid: &str) -> (found: Option<usize>)
    ensures
        match found {
            Some(i) => i < pending.len() && pending[i as int]@ == uuid@,
            None => !texts(pending@).contains(uuid@),
        },
{
    let mut i: usize = 0;
    while i < pending.len()
        invariant
            i <= pending.len(),
            forall|k: int| 0 <= k < i ==> pending[k]@ != uuid@,
        decreases pending.len() - i,
    {
        if same_text(pending[i].as_str(), uuid) {
            return Some(i);
        }
        i += 1;
    }
    assert forall|k: int| 0 <= k < texts(pending@).len() implies texts(pending@)[k] != uuid@ by {
        assert(pending[k]@ != uuid@);
    }
    None
}

impl RefreshTickets {
    #[verifier::type_invariant]
    spec fn well_formed(&self) -> bool {
        texts(self.pending@).no_duplicates()
    }

    /// No refresh under way.
    pub fn new() -> (tickets: RefreshTickets)
        ensures
            tickets@ == Set::<Seq<char>>::empty(),
    {
        let tickets = RefreshTickets { pending: Vec::new() };
        assert(tickets@ =~= Set::<Seq<char>>::empty());
        tickets
    }

    /// Whether a refresh for `uuid` is under way.
    pub fn is_pending(&self, uuid: &str) -> (pending: bool)
        ensures
            pending == self@.contains(uuid@),
    {
        match ticket_position(&self.pending, uuid) {
            Some(i) => {
                assert(texts(self.pending@)[i as int] == uuid@);
                true
            },
            None => false,
        }
    }

    /// Registers a ticket for `uuid` unless it has one; tells whether the
    /// ticket is new.
    pub fn register(&mut self, uuid: &str) -> (registered: bool)
        ensures
            registered == !old(self)@.contains(uuid@),
            final(self)@ == old(self)@.insert(uuid@),
    {
        proof {
            use_type_invariant(&*self);
        }
        match ticket_position(&self.pending, uuid) {
            Some(i) => {
                assert(texts(self.pending@)[i as int] == uuid@);
                assert(self@.insert(uuid@) =~= self@);
                false
            },
            None => {
                let mut pending: Vec<String> = Vec::new();
                std::mem::swap(&mut pending, &mut self.pending);
                let ghost before = texts(pending@);
                pending.push(uuid.to_owned());
                proof {
                    assert(texts(pending@) =~= before.push(uuid@));
                    assert forall|name: Seq<char>|
                        before.push(uuid@).to_set().contains(name) == before.to_set().insert(
                            uuid@,
                        ).contains(name) by {
                        if before.push(uuid@).contains(name) {
                            let k = choose|k: int|
                                0 <= k < before.push(uuid@).len() && before.push(uuid@)[k] == name;
                            if k < before.len() {
                                assert(before[k] == name);
                            }
                        }
                        if before.contains(name) {
                            let k = choose|k: int| 0 <= k < before.len() && before[k] == name;
                            assert(before.push(uuid@)[k] == name);
                        }
                        if name == uuid@ {
                            assert(before.push(uuid@)[before.len() as int] == name);
                        }
                    }
                    assert(before.push(uuid@).to_set() =~= before.to_set().insert(uuid@));
                }
                self.pending = pending;
                true
            },
        }
    }

    /// Takes the ticket of `uuid` away; tells whether there was one.
    pub fn resolve(&mut self, uuid: &str) -> (resolved: bool)
        ensures
            resolved == old(self)@.contains(uuid@),
            final(self)@ == old(self)@.remove(uuid@),
    {
        proof {
            use_type_invariant(&*self);
        }
        match ticket_position(&self.pending, uuid) {
            None => {
                assert(self@.remove(uuid@) =~= self@);
                false
            },
            Some(i) => {
                let mut pending: Vec<String> = Vec::new();
                std::mem::swap(&mut pending, &mut self.pending);
                let ghost before = texts(pending@);
                assert(before[i as int] == uuid@);
                pending.remove(i);
                proof {
                    let after = before.remove(i as int);
                    assert(texts(pending@) =~= after);
                    assert forall|a: int, b: int| 0 <= a < after.len() && 0 <= b < after.len() && a
                        != b implies after[a] != after[b] by {
                        let oa = if a < i { a } else { a + 1 };
                        let ob = if b < i { b } else { b + 1 };
                        assert(before[oa] != before[ob]);
                    }
                    assert forall|name: Seq<char>|
                        after.to_set().contains(name) == before.to_set().remove(uuid@).contains(
                            name,
                        ) by {
                        if after.contains(name) {
                            let k = choose|k: int| 0 <= k < after.len() && after[k] == name;
                            let ok = if k < i { k } else { k + 1 };
                            assert(before[ok] == name);
                            assert(before[ok] != before[i as int]);
                        }
                        if before.contains(name) && name != uuid@ {
                            let k = choose|k: int| 0 <= k < before.len() && before[k] == name;
                            let nk = if k < i { k } else { k - 1 };
                            assert(after[nk] == name);
                        }
                    }
                    assert(after.to_set() =~= before.to_set().remove(uuid@));
                }
                self.pending = pending;
                true
            },
        }
    }
}

/// What a caller who needs a valid token for an account has to do.
#[derive(Debug, PartialEq, Eq)]
pub enum TokenStep {
    /// The stored token is fresh: use it.
    Ready(String),
    /// The token must be refreshed and no refresh is under way: a ticket
    /// was registered, and the caller exchanges this refresh token.
    Refresh(String),
    /// The token must be refreshed and a refresh is under way: wait for
    /// its outcome.
    Join,
}

/// The mathematical value of a [`TokenStep`].
pub enum StepView {
    Ready(Seq<char>),
    Refresh(Seq<char>),
    Join,
}

impl View for TokenStep {
    type V = StepView;

    open spec fn view(&self) -> StepView {
        match self {
            TokenStep::Ready(token) => StepView::Ready(token@),
            TokenStep::Refresh(token) => StepView::Refresh(token@),
            TokenStep::Join => StepView::Join,
        }
    }
}

/// The value of a step, or the error in its place.
pub open spec fn step_view(step: Result<TokenStep, AccountError>) -> Result<
    StepView,
    AccountError,
> {
    match step {
        Ok(s) => Ok(s@),
        Err(e) => Err(e),
    }
}

/// What a caller has to do who is to refresh the token of `uuid`, given
/// the refreshes `pending`.
///
/// The first caller to ask exchanges the refresh token; the others join.
/// An account that the store does not hold, or that has no refresh token,
/// is an error.
pub open spec fn refresh_step(store: StoreView, pending: Set<Seq<char>>, uuid: Seq<char>) -> Result<
    StepView,
    AccountError,
> {
    if !store.accounts.contains_key(uuid) {
        Err(AccountError::AccountNotFound)
    } else {
        match store.accounts[uuid].refresh_token {
            Some(token) => if pending.contains(uuid) {
                Ok(StepView::Join)
            } else {
                Ok(StepView::Refresh(token))
            },
            None => Err(AccountError::ReauthenticationRequired),
        }
    }
}

/// What a caller has to do who needs a valid token for `uuid` at `now`,
/// given the refreshes `pending`.
///
/// A fresh token is used as it is; any other token is refreshed, see
/// [`refresh_step`]. An account that the store does not hold, or whose
/// token is dead, is an error.
pub open spec fn planned_step(
    store: StoreView,
    pending: Set<Seq<char>>,
    uuid: Seq<char>,
    now: i64,
) -> Result<StepView, AccountError> {
    if store.accounts.contains_key(uuid) && freshness_at(store.accounts[uuid], now as int)
        == Freshness::Fresh {
        Ok(StepView::Ready(store.accounts[uuid].access_token))
    } else {
        refresh_step(store, pending, uuid)
    }
}

/// The refreshes under way after a caller was told `step` for `uuid`: a
/// caller who was told to refresh has registered a ticket.
pub open spec fn registered(
    pending: Set<Seq<char>>,
    uuid: Seq<char>,
    step: Result<StepView, AccountError>,
) -> Set<Seq<char>> {
    if step matches Ok(StepView::Refresh(_)) {
        pending.insert(uuid)
    } else {
        pending
    }
}

/// The refreshes under way after a caller was told [`planned_step`].
pub open spec fn pending_after(
    store: StoreView,
    pending: Set<Seq<char>>,
    uuid: Seq<char>,
    now: i64,
) -> Set<Seq<char>> {
    registered(pending, uuid, planned_step(store, pending, uuid, now))
}

/// A token that is no longer fresh is refreshed if there is a refresh
/// token, and dead if there is none.
pub proof fn lemma_stale_token_step(
    store: StoreView,
    pending: Set<Seq<char>>,
    uuid: Seq<char>,
    now: i64,
)
    requires
        store.accounts.contains_key(uuid),
    ensures
        freshness_at(store.accounts[uuid], now as int) == Freshness::Fresh ==> planned_step(
            store,
            pending,
            uuid,
            now,
        ) == Ok::<StepView, AccountError>(StepView::Ready(store.accounts[uuid].access_token)),
        freshness_at(store.accounts[uuid], now as int) == Freshness::Dead ==> planned_step(
            store,
            pending,
            uuid,
            now,
        ) == Err::<StepView, AccountError>(AccountError::ReauthenticationRequired),
        freshness_at(store.accounts[uuid], now as int) == Freshness::Refreshable ==> planned_step(
            store,
            pending,
            uuid,
            now,
        ) == if pending.contains(uuid) {
            Ok::<StepView, AccountError>(StepView::Join)
        } else {
            Ok::<StepView, AccountError>(StepView::Refresh(store.accounts[uuid].refresh_token->0))
        },
{
}

/// Whether a caller is told to make the exchange.
pub open spec fn is_refresh(step: Result<StepView, AccountError>) -> bool {
    step matches Ok(StepView::Refresh(_))
}

/// Of any number of callers who ask in turn for a token of one account,
/// while no refresh of it ends, at most one is told to make the exchange,
/// whatever the store holds and whatever the time when each of them asks.
/// If the token must be refreshed when the first of them asks, and no
/// refresh of it is under way, it is the first who is told so.
pub proof fn lemma_one_refresh_among_callers(
    stores: Seq<StoreView>,
    times: Seq<i64>,
    pendings: Seq<Set<Seq<char>>>,
    uuid: Seq<char>,
)
    requires
        stores.len() == times.len(),
        pendings.len() == times.len() + 1,
        forall|i: int|
            0 <= i < times.len() ==> #[trigger] pendings[i + 1] == pending_after(
                stores[i],
                pendings[i],
                uuid,
                times[i],
            ),
    ensures
        forall|i: int, j: int|
            0 <= i < j < times.len() && is_refresh(
                #[trigger] planned_step(stores[i], pendings[i], uuid, times[i]),
            ) ==> !is_refresh(#[trigger] planned_step(stores[j], pendings[j], uuid, times[j])),
        times.len() > 0 && !pendings[0].contains(uuid) && stores[0].accounts.contains_key(uuid)
            && freshness_at(stores[0].accounts[uuid], times[0] as int) == Freshness::Refreshable
            ==> is_refresh(planned_step(stores[0], pendings[0], uuid, times[0])),
{
    assert forall|i: int, j: int|
        0 <= i < j < times.len() && is_refresh(
            #[trigger] planned_step(stores[i], pendings[i], uuid, times[i]),
        ) implies !is_refresh(
        #[trigger] planned_step(stores[j], pendings[j], uuid, times[j]),
    ) by {
        assert(pendings[i + 1].contains(uuid));
        lemma_ticket_stays(stores, times, pendings, uuid, i + 1, j);
    }
}

/// A ticket that is registered when one caller asks is still registered
/// when any later caller asks.
proof fn lemma_ticket_stays(
    stores: Seq<StoreView>,
    times: Seq<i64>,
    pendings: Seq<Set<Seq<char>>>,
    uuid: Seq<char>,
    from: int,
    to: int,
)
    requires
        stores.len() == times.len(),
        pendings.len() == times.len() + 1,
        forall|i: int|
            0 <= i < times.len() ==> #[trigger] pendings[i + 1] == pending_after(
                stores[i],
                pendings[i],
                uuid,
                times[i],
            ),
        0 <= from <= to <= times.len(),
        pendings[from].contains(uuid),
    ensures
        pendings[to].contains(uuid),
    decreases to - from,
{
    if from < to {
        lemma_ticket_stays(stores, times, pendings, uuid, from, to - 1);
        assert(pendings[to - 1 + 1] == pending_after(
            stores[to - 1],
            pendings[to - 1],
            uuid,
            times[to - 1],
        ));
    }
}

impl RefreshTickets {
    /// Tells a caller who is to refresh the token of `uuid` what to do, and
    /// registers a ticket if the caller is to make the exchange.
    pub fn begin(&mut self, store: &AccountStore, uuid: &str) -> (step: Result<
        TokenStep,
        AccountError,
    >)
        ensures
            step_view(step) == refresh_step(store@, old(self)@, uuid@),
            final(self)@ == registered(old(self)@, uuid@, refresh_step(store@, old(self)@, uuid@)),
    {
        let account = match store.get_account(uuid) {
            Some(account) => account,
            None => {
                return Err(AccountError::AccountNotFound);
            },
        };
        match account.refresh_token {
            Some(token) => {
                if self.register(uuid) {
                    Ok(TokenStep::Refresh(token))
                } else {
                    proof {
                        assert(self@ =~= old(self)@);
                    }
                    Ok(TokenStep::Join)
                }
            },
            None => Err(AccountError::ReauthenticationRequired),
        }
    }

    /// Tells a caller who needs a valid token for `uuid` at `now` what to
    /// do, and registers a ticket if the caller is to refresh.
    pub fn plan(&mut self, store: &AccountStore, uuid: &str, now: i64) -> (step: Result<
        TokenStep,
        AccountError,
    >)
        ensures
            step_view(step) == planned_step(store@, old(self)@, uuid@, now),
            final(self)@ == pending_after(store@, old(self)@, uuid@, now),
    {
        match store.get_account(uuid) {
            Some(account) => match classify(&account, now) {
                Freshness::Fresh => Ok(TokenStep::Ready(account.access_token)),
                _ => self.begin(store, uuid),
            },
            None => Err(AccountError::AccountNotFound),
        }
    }
}

} // verus!
