use vstd::prelude::*;
use crate::errors::AppError;
use crate::models::{CreatePayment, CreateProperty, Payment, PaymentStatus, Property, RegisterUser,
    User};
use crate::text::{chars_le, lemma_chars_le_antisym, lemma_chars_le_total, lemma_chars_le_trans,
    str_eq, str_le};
use vstd::multiset::Multiset;

verus! {

/// The abstract contents of the store: the stored rows in insertion order,
/// and the allocation counters for row identities and creation stamps.
pub ghost struct DbView {
    pub users: Seq<User>,
    pub payments: Seq<Payment>,
    pub properties: Seq<Property>,
    pub next_id: int,
    pub next_stamp: int,
}

pub open spec fn spec_has_username(db: DbView, username: Seq<char>) -> bool {
    exists|i: int| 0 <= i < db.users.len() && db.users[i].username@ == username
}

/// The user holding a username, where one exists. Usernames are unique in a
/// well-formed store, so the witness does not matter.
pub open spec fn spec_find_user(db: DbView, username: Seq<char>) -> Option<User> {
    if spec_has_username(db, username) {
        Some(
            db.users[choose|i: int|
                0 <= i < db.users.len() && db.users[i].username@ == username],
        )
    } else {
        None
    }
}

pub open spec fn spec_has_user_id(db: DbView, id: u64) -> bool {
    exists|i: int| 0 <= i < db.users.len() && db.users[i].id == id
}

pub open spec fn spec_has_property_id(db: DbView, id: u64) -> bool {
    exists|i: int| 0 <= i < db.properties.len() && db.properties[i].id == id
}

/// Whether some payment other than the one at `except` already carries this
/// external transaction reference.
pub open spec fn spec_transaction_id_taken_except(
    db: DbView,
    tid: Seq<char>,
    except: int,
) -> bool {
    exists|i: int|
        #![trigger db.payments[i]]
        0 <= i < db.payments.len() && i != except && match db.payments[i].transaction_id {
            Some(t) => t@ == tid,
            None => false,
        }
}

pub open spec fn spec_transaction_id_taken(db: DbView, tid: Seq<char>) -> bool {
    spec_transaction_id_taken_except(db, tid, -1)
}

/// The store can hand out one more row identity and one more stamp.
pub open spec fn spec_can_allocate(db: DbView) -> bool {
    db.next_id < u64::MAX && db.next_stamp < u64::MAX
}

/// Well-formedness of the store: identities are unique and below the
/// counter, usernames are unique and non-empty, payments carry strictly
/// increasing creation stamps and reference existing rows, and transaction
/// ids are unique when present.
pub open spec fn db_wf(db: DbView) -> bool {
    &&& forall|i: int, j: int|
        #![trigger db.users[i], db.users[j]]
        0 <= i < j < db.users.len() ==> db.users[i].username@ != db.users[j].username@
            && db.users[i].id != db.users[j].id
    &&& forall|i: int|
        #![trigger db.users[i]]
        0 <= i < db.users.len() ==> db.users[i].id < db.next_id
            && db.users[i].username@.len() > 0 && db.users[i].created_at == db.users[i].updated_at
            && db.users[i].updated_at < db.next_stamp
    &&& forall|i: int, j: int|
        #![trigger db.payments[i], db.payments[j]]
        0 <= i < j < db.payments.len() ==> db.payments[i].id != db.payments[j].id
            && db.payments[i].created_at < db.payments[j].created_at && match (
            db.payments[i].transaction_id,
            db.payments[j].transaction_id,
        ) {
            (Some(a), Some(b)) => a@ != b@,
            _ => true,
        }
    &&& forall|i: int|
        #![trigger db.payments[i]]
        0 <= i < db.payments.len() ==> db.payments[i].id < db.next_id
            && db.payments[i].created_at <= db.payments[i].updated_at
            && db.payments[i].updated_at < db.next_stamp && spec_has_user_id(
            db,
            db.payments[i].user_id,
        ) && match db.payments[i].property_id {
            Some(p) => spec_has_property_id(db, p),
            None => true,
        }
    &&& forall|i: int, j: int|
        #![trigger db.properties[i], db.properties[j]]
        0 <= i < j < db.properties.len() ==> db.properties[i].id != db.properties[j].id
    &&& forall|i: int|
        #![trigger db.properties[i]]
        0 <= i < db.properties.len() ==> db.properties[i].id < db.next_id
            && db.properties[i].created_at == db.properties[i].updated_at
            && db.properties[i].updated_at < db.next_stamp
}

/// An in-memory relational store for users, payments and properties. It
/// assigns row identities and creation stamps from monotone counters, so
/// creation order and creation time order agree.
pub struct Database {
    users: Vec<User>,
    payments: Vec<Payment>,
    properties: Vec<Property>,
    next_id: u64,
    next_stamp: u64,
}

impl Database {
    pub closed spec fn view(&self) -> DbView {
        DbView {
            users: self.users@,
            payments: self.payments@,
            properties: self.properties@,
            next_id: self.next_id as int,
            next_stamp: self.next_stamp as int,
        }
    }

    pub open spec fn wf(&self) -> bool {
        db_wf(self@)
    }

    /// An empty store, with both allocation counters at zero.
    pub fn new() -> (db: Database)
        ensures
            db.wf(),
            db@.users.len() == 0,
            db@.payments.len() == 0,
            db@.properties.len() == 0,
            db@.next_id == 0,
            db@.next_stamp == 0,
    {
        Database {
            users: Vec::new(),
            payments: Vec::new(),
            properties: Vec::new(),
            next_id: 0,
            next_stamp: 0,
        }
    }
}

/// Index of the user holding this username, if any.
fn find_user_index(db: &Database, username: &str) -> (r: Option<usize>)
    ensures
        match r {
            Some(i) => i < db@.users.len() && db@.users[i as int].username@ == username@,
            None => !spec_has_username(db@, username@),
        },
{
    let n = db.users.len();
    let mut i: usize = 0;
    while i < n
        invariant
            i <= n,
            n == db@.users.len(),
            forall|j: int| 0 <= j < i ==> db@.users[j].username@ != username@,
        decreases n - i,
    {
        if str_eq(db.users[i].username.as_str(), username) {
            return Some(i);
        }
        i = i + 1;
    }
    None
}

/// Looks a user up by username; `Some` exactly when the store holds the
/// username, and then the returned row is that user.
pub fn find_user_by_username(db: &Database, username: &str) -> (r: Option<User>)
    requires
        db.wf(),
    ensures
        r == spec_find_user(db@, username@),
{
    match find_user_index(db, username) {
        Some(i) => {
            let u = db.users[i].clone();
            proof {
                let w = choose|k: int|
                    0 <= k < db@.users.len() && db@.users[k].username@ == username@;
                assert(db@.users[w].username@ == username@);
                if w != i as int {
                    assert(db@.users[w].username@ != db@.users[i as int].username@);
                }
            }
            Some(u)
        },
        None => None,
    }
}

/// Inserts a new user row. Fails with `Conflict` exactly when the username
/// is already taken, and with `InternalServerError` exactly when the store
/// cannot allocate another row.
pub fn create_user(db: &mut Database, new_user: RegisterUser, password_hash: String) -> (r: Result<
    User,
    AppError,
>)
    requires
        old(db).wf(),
        new_user.username@.len() > 0,
    ensures
        final(db).wf(),
        match r {
            Ok(u) => {
                &&& !spec_has_username(old(db)@, new_user.username@)
                &&& spec_can_allocate(old(db)@)
                &&& u.id == old(db)@.next_id
                &&& u.username@ == new_user.username@
                &&& u.password_hash@ == password_hash@
                &&& u.created_at == old(db)@.next_stamp
                &&& u.updated_at == u.created_at
                &&& final(db)@.users == old(db)@.users.push(u)
                &&& final(db)@.payments == old(db)@.payments
                &&& final(db)@.properties == old(db)@.properties
                &&& final(db)@.next_id == old(db)@.next_id + 1
                &&& final(db)@.next_stamp == old(db)@.next_stamp + 1
            },
            Err(e) => {
                &&& final(db)@ == old(db)@
                &&& (e is Conflict <==> spec_has_username(old(db)@, new_user.username@))
                &&& (e matches AppError::Conflict(m) ==> m@ == "Username already taken"@)
                &&& (e is Conflict || e is InternalServerError)
            },
        },
        r is Ok <==> !spec_has_username(old(db)@, new_user.username@) && spec_can_allocate(
            old(db)@,
        ),
{
    if find_user_index(db, new_user.username.as_str()).is_some() {
        return Err(AppError::Conflict("Username already taken".to_owned()));
    }
    if db.next_id == u64::MAX || db.next_stamp == u64::MAX {
        return Err(
            AppError::InternalServerError("Failed to create user: store exhausted".to_owned()),
        );
    }
    let id = db.next_id;
    let stamp = db.next_stamp;
    db.next_id = db.next_id + 1;
    db.next_stamp = db.next_stamp + 1;
    let user = User {
        id,
        username: new_user.username,
        password_hash,
        created_at: stamp,
        updated_at: stamp,
    };
    let returned = user.clone();
    db.users.push(user);
    proof {
        assert forall|i: int, j: int|
            0 <= i < j < db@.users.len() implies db@.users[i].username@
            != db@.users[j].username@ by {
            if j == db@.users.len() - 1 {
                assert(db@.users[i] == old(db)@.users[i]);
            }
        }
        assert forall|i: int| 0 <= i < db@.payments.len() implies spec_has_user_id(
            db@,
            db@.payments[i].user_id,
        ) by {
            assert(spec_has_user_id(old(db)@, old(db)@.payments[i].user_id));
            let w = choose|k: int|
                0 <= k < old(db)@.users.len() && old(db)@.users[k].id == old(
                    db,
                )@.payments[i].user_id;
            assert(db@.users[w].id == db@.payments[i].user_id);
        }
        assert forall|i: int|
            #![trigger db@.payments[i]]
            0 <= i < db@.payments.len() implies match db@.payments[i].property_id {
            Some(p) => spec_has_property_id(db@, p),
            None => true,
        } by {
            assert(match old(db)@.payments[i].property_id {
                Some(p) => spec_has_property_id(old(db)@, p),
                None => true,
            });
        }
    }
    Ok(returned)
}

/// The new payment references only rows that the store holds.
pub open spec fn spec_payment_refs_ok(db: DbView, np: CreatePayment) -> bool {
    &&& spec_has_user_id(db, np.user_id)
    &&& match np.property_id {
        Some(p) => spec_has_property_id(db, p),
        None => true,
    }
}

/// The requested transaction id, when present, is already carried by some
/// stored payment.
pub open spec fn spec_txid_conflict(db: DbView, tid: Option<String>) -> bool {
    match tid {
        Some(t) => spec_transaction_id_taken(db, t@),
        None => false,
    }
}

fn user_id_exists(db: &Database, id: u64) -> (r: bool)
    ensures
        r == spec_has_user_id(db@, id),
{
    let n = db.users.len();
    let mut i: usize = 0;
    while i < n
        invariant
            i <= n,
            n == db@.users.len(),
            forall|j: int| 0 <= j < i ==> db@.users[j].id != id,
        decreases n - i,
    {
        if db.users[i].id == id {
            return true;
        }
        i = i + 1;
    }
    false
}

fn property_id_exists(db: &Database, id: u64) -> (r: bool)
    ensures
        r == spec_has_property_id(db@, id),
{
    let n = db.properties.len();
    let mut i: usize = 0;
    while i < n
        invariant
            i <= n,
            n == db@.properties.len(),
            forall|j: int| 0 <= j < i ==> db@.properties[j].id != id,
        decreases n - i,
    {
        if db.properties[i].id == id {
            return true;
        }
        i = i + 1;
    }
    false
}

/// Whether some payment other than the one at index `except` (`None` for no
/// exception) carries this transaction id.
fn transaction_id_taken_except(db: &Database, tid: &str, except: Option<usize>) -> (r: bool)
    ensures
        r == spec_transaction_id_taken_except(
            db@,
            tid@,
            match except {
                Some(e) => e as int,
                None => -1,
            },
        ),
{
    let ghost ex: int = match except {
        Some(e) => e as int,
        None => -1,
    };
    let n = db.payments.len();
    let mut i: usize = 0;
    while i < n
        invariant
            i <= n,
            n == db@.payments.len(),
            ex == match except {
                Some(e) => e as int,
                None => -1,
            },
            forall|j: int|
                #![trigger db@.payments[j]]
                0 <= j < i ==> j == ex || match db@.payments[j].transaction_id {
                    Some(t) => t@ != tid@,
                    None => true,
                },
        decreases n - i,
    {
        let skip = match except {
            Some(e) => e == i,
            None => false,
        };
        if !skip {
            match &db.payments[i].transaction_id {
                Some(t) => {
                    if str_eq(t.as_str(), tid) {
                        return true;
                    }
                },
                None => {},
            }
        }
        i = i + 1;
    }
    false
}

/// Inserts a new payment row with the status and external transaction
/// reference given. Fails with `Conflict` exactly when the transaction id is
/// already taken, and with `InternalServerError` when a referenced row is
/// missing or the store cannot allocate another row.
pub fn create_payment(
    db: &mut Database,
    new_payment: CreatePayment,
    status: PaymentStatus,
    transaction_id: Option<String>,
) -> (r: Result<Payment, AppError>)
    requires
        old(db).wf(),
    ensures
        final(db).wf(),
        match r {
            Ok(p) => {
                &&& spec_payment_refs_ok(old(db)@, new_payment)
                &&& !spec_txid_conflict(old(db)@, transaction_id)
                &&& spec_can_allocate(old(db)@)
                &&& p.id == old(db)@.next_id
                &&& p.user_id == new_payment.user_id
                &&& p.property_id == new_payment.property_id
                &&& p.amount == new_payment.amount
                &&& p.currency@ == new_payment.currency@
                &&& p.status == status
                &&& p.notes == new_payment.notes
                &&& p.transaction_id == transaction_id
                &&& p.due_date == new_payment.due_date
                &&& p.period_start == new_payment.period_start
                &&& p.period_end == new_payment.period_end
                &&& p.created_at == old(db)@.next_stamp
                &&& p.updated_at == p.created_at
                &&& final(db)@.payments == old(db)@.payments.push(p)
                &&& final(db)@.users == old(db)@.users
                &&& final(db)@.properties == old(db)@.properties
                &&& final(db)@.next_id == old(db)@.next_id + 1
                &&& final(db)@.next_stamp == old(db)@.next_stamp + 1
            },
            Err(e) => {
                &&& final(db)@ == old(db)@
                &&& (e is Conflict <==> spec_payment_refs_ok(old(db)@, new_payment)
                    && spec_txid_conflict(old(db)@, transaction_id))
                &&& (e is Conflict || e is InternalServerError)
            },
        },
        r is Ok <==> spec_payment_refs_ok(old(db)@, new_payment) && !spec_txid_conflict(
            old(db)@,
            transaction_id,
        ) && spec_can_allocate(old(db)@),
{
    if !user_id_exists(db, new_payment.user_id) {
        return Err(
            AppError::InternalServerError(
                "Failed to create payment: unknown user".to_owned(),
            ),
        );
    }
    match &new_payment.property_id {
        Some(p) => {
            if !property_id_exists(db, *p) {
                return Err(
                    AppError::InternalServerError(
                        "Failed to create payment: unknown property".to_owned(),
                    ),
                );
            }
        },
        None => {},
    }
    match &transaction_id {
        Some(t) => {
            if transaction_id_taken_except(db, t.as_str(), None) {
                return Err(AppError::Conflict("Transaction id already taken".to_owned()));
            }
        },
        None => {},
    }
    if db.next_id == u64::MAX || db.next_stamp == u64::MAX {
        return Err(
            AppError::InternalServerError("Failed to create payment: store exhausted".to_owned()),
        );
    }
    let id = db.next_id;
    let stamp = db.next_stamp;
    db.next_id = db.next_id + 1;
    db.next_stamp = db.next_stamp + 1;
    let payment = Payment {
        id,
        user_id: new_payment.user_id,
        property_id: new_payment.property_id,
        amount: new_payment.amount,
        currency: new_payment.currency,
        status,
        notes: new_payment.notes,
        transaction_id,
        due_date: new_payment.due_date,
        period_start: new_payment.period_start,
        period_end: new_payment.period_end,
        created_at: stamp,
        updated_at: stamp,
    };
    let returned = payment.clone();
    db.payments.push(payment);
    proof {
        lemma_payments_push_wf(old(db)@, db@);
    }
    Ok(returned)
}

/// Pushing one fresh payment row keeps the store well-formed, provided the
/// new row's identity and stamp come from the counters, its references
/// exist, and its transaction id is not yet taken.
proof fn lemma_payments_push_wf(pre: DbView, post: DbView)
    requires
        db_wf(pre),
        post.users == pre.users,
        post.properties == pre.properties,
        post.next_id == pre.next_id + 1,
        post.next_stamp == pre.next_stamp + 1,
        post.payments.len() == pre.payments.len() + 1,
        forall|i: int| 0 <= i < pre.payments.len() ==> post.payments[i] == pre.payments[i],
        post.payments.last().id == pre.next_id,
        post.payments.last().created_at == pre.next_stamp,
        post.payments.last().updated_at == pre.next_stamp,
        spec_has_user_id(pre, post.payments.last().user_id),
        match post.payments.last().property_id {
            Some(p) => spec_has_property_id(pre, p),
            None => true,
        },
        match post.payments.last().transaction_id {
            Some(t) => !spec_transaction_id_taken(pre, t@),
            None => true,
        },
    ensures
        db_wf(post),
{
    let n = post.payments.len() - 1;
    assert forall|i: int, j: int|
        #![trigger post.payments[i], post.payments[j]]
        0 <= i < j < post.payments.len() implies post.payments[i].id != post.payments[j].id
        && post.payments[i].created_at < post.payments[j].created_at && match (
        post.payments[i].transaction_id,
        post.payments[j].transaction_id,
    ) {
        (Some(a), Some(b)) => a@ != b@,
        _ => true,
    } by {
        if j < n {
            assert(post.payments[i] == pre.payments[i]);
            assert(post.payments[j] == pre.payments[j]);
        } else {
            assert(post.payments[i] == pre.payments[i]);
            assert(match (pre.payments[i].transaction_id, post.payments[n].transaction_id) {
                (Some(a), Some(b)) => a@ != b@,
                _ => true,
            }) by {
                match post.payments[n].transaction_id {
                    Some(t) => {
                        assert(!spec_transaction_id_taken_except(pre, t@, -1));
                    },
                    None => {},
                }
            }
        }
    }
    assert forall|i: int|
        #![trigger post.payments[i]]
        0 <= i < post.payments.len() implies post.payments[i].id < post.next_id
        && post.payments[i].created_at <= post.payments[i].updated_at
        && post.payments[i].updated_at < post.next_stamp && spec_has_user_id(
        post,
        post.payments[i].user_id,
    ) && match post.payments[i].property_id {
        Some(p) => spec_has_property_id(post, p),
        None => true,
    } by {
        let q = if i < n {
            pre.payments[i]
        } else {
            post.payments[i]
        };
        if i < n {
            assert(post.payments[i] == pre.payments[i]);
        }
        assert(spec_has_user_id(pre, q.user_id));
        let w = choose|k: int| 0 <= k < pre.users.len() && pre.users[k].id == q.user_id;
        assert(post.users[w].id == q.user_id);
        match q.property_id {
            Some(p) => {
                assert(spec_has_property_id(pre, p));
                let v = choose|k: int|
                    0 <= k < pre.properties.len() && pre.properties[k].id == p;
                assert(post.properties[v].id == p);
            },
            None => {},
        }
    }
    assert forall|i: int|
        #![trigger post.users[i]]
        0 <= i < post.users.len() implies post.users[i].id < post.next_id
        && post.users[i].username@.len() > 0 && post.users[i].created_at
        == post.users[i].updated_at && post.users[i].updated_at < post.next_stamp by {
        assert(pre.users[i].id < pre.next_id);
    }
    assert forall|i: int|
        #![trigger post.properties[i]]
        0 <= i < post.properties.len() implies post.properties[i].id < post.next_id
        && post.properties[i].created_at == post.properties[i].updated_at
        && post.properties[i].updated_at < post.next_stamp by {
        assert(pre.properties[i].id < pre.next_id);
    }
}

pub open spec fn spec_has_payment_id(db: DbView, id: u64) -> bool {
    exists|i: int| 0 <= i < db.payments.len() && db.payments[i].id == id
}

/// The position of the payment holding this identity, where one exists.
/// Identities are unique in a well-formed store, so the witness does not
/// matter.
pub open spec fn spec_payment_index(db: DbView, id: u64) -> int {
    choose|i: int| 0 <= i < db.payments.len() && db.payments[i].id == id
}

proof fn lemma_payment_ids_unique(db: DbView, a: int, b: int)
    requires
        db_wf(db),
        0 <= a < db.payments.len(),
        0 <= b < db.payments.len(),
        a != b,
    ensures
        db.payments[a].id != db.payments[b].id,
{
    if a < b {
        assert(0 <= a < b < db.payments.len());
        assert(db.payments[a].id != db.payments[b].id);
    } else {
        assert(0 <= b < a < db.payments.len());
        assert(db.payments[b].id != db.payments[a].id);
    }
}

fn find_payment_index(db: &Database, id: u64) -> (r: Option<usize>)
    requires
        db.wf(),
    ensures
        match r {
            Some(i) => spec_has_payment_id(db@, id) && i == spec_payment_index(db@, id)
                && i < db@.payments.len() && db@.payments[i as int].id == id,
            None => !spec_has_payment_id(db@, id),
        },
{
    let n = db.payments.len();
    let mut i: usize = 0;
    while i < n
        invariant
            db.wf(),
            i <= n,
            n == db@.payments.len(),
            forall|j: int| 0 <= j < i ==> db@.payments[j].id != id,
        decreases n - i,
    {
        if db.payments[i].id == id {
            proof {
                assert(spec_has_payment_id(db@, id));
                let w = spec_payment_index(db@, id);
                assert(0 <= w < db@.payments.len() && db@.payments[w].id == id);
                if w != i as int {
                    lemma_payment_ids_unique(db@, w, i as int);
                }
            }
            return Some(i);
        }
        i = i + 1;
    }
    None
}

/// The transaction id that a payment carries after a transition that
/// supplies `tid`: a supplied reference replaces the stored one, and `None`
/// keeps it.
pub open spec fn spec_updated_txid(stored: Option<String>, tid: Option<String>) -> Option<String> {
    match tid {
        Some(t) => Some(t),
        None => stored,
    }
}

/// Everything `update_payment_status` says of its outcome: on success the
/// row at the payment's position is rewritten in place — new status, the
/// transaction reference kept or replaced, a fresh update stamp — and the
/// move was allowed; on failure the store is unchanged, a `Conflict` names
/// exactly a disallowed move or a taken transaction id, and anything else
/// (an unknown payment, an exhausted store) is an `InternalServerError`.
pub open spec fn spec_update_outcome(
    pre: DbView,
    post: DbView,
    payment_id: u64,
    new_status: PaymentStatus,
    transaction_id: Option<String>,
    r: Result<Payment, AppError>,
) -> bool {
    let idx = spec_payment_index(pre, payment_id);
    let prev = pre.payments[idx];
    match r {
        Ok(p) => {
            &&& spec_has_payment_id(pre, payment_id)
            &&& prev.status.spec_can_transition(new_status)
            &&& p == Payment {
                status: new_status,
                transaction_id: spec_updated_txid(prev.transaction_id, transaction_id),
                updated_at: p.updated_at,
                ..prev
            }
            &&& p.updated_at == pre.next_stamp
            &&& post.payments == pre.payments.update(idx, p)
            &&& post.users == pre.users
            &&& post.properties == pre.properties
            &&& post.next_id == pre.next_id
            &&& post.next_stamp == pre.next_stamp + 1
        },
        Err(e) => {
            &&& post == pre
            &&& (e is Conflict <==> spec_has_payment_id(pre, payment_id) && (
            !prev.status.spec_can_transition(new_status) || match transaction_id {
                Some(t) => spec_transaction_id_taken_except(pre, t@, idx),
                None => false,
            }))
            &&& (e is Conflict || e is InternalServerError)
        },
    }
}

/// Whether `update_payment_status` succeeds: the payment exists, the state
/// machine allows the move, the supplied transaction id is carried by no
/// other payment, and the store can allocate one more stamp.
pub open spec fn spec_update_succeeds(
    pre: DbView,
    payment_id: u64,
    new_status: PaymentStatus,
    transaction_id: Option<String>,
) -> bool {
    &&& spec_has_payment_id(pre, payment_id)
    &&& pre.payments[spec_payment_index(pre, payment_id)].status.spec_can_transition(new_status)
    &&& match transaction_id {
        Some(t) => !spec_transaction_id_taken_except(
            pre,
            t@,
            spec_payment_index(pre, payment_id),
        ),
        None => true,
    }
    &&& pre.next_stamp < u64::MAX
}

/// Moves a stored payment to a new lifecycle status, optionally recording an
/// external transaction reference, and refreshes its update stamp. Fails
/// with `Conflict` exactly when the move is not allowed by the state machine
/// or the supplied transaction id is already carried by another payment, and
/// with `InternalServerError` when the payment is unknown or the store
/// cannot allocate another stamp.
pub fn update_payment_status(
    db: &mut Database,
    payment_id: u64,
    new_status: PaymentStatus,
    transaction_id: Option<String>,
) -> (r: Result<Payment, AppError>)
    requires
        old(db).wf(),
    ensures
        final(db).wf(),
        spec_update_outcome(old(db)@, final(db)@, payment_id, new_status, transaction_id, r),
        r is Ok <==> spec_update_succeeds(old(db)@, payment_id, new_status, transaction_id),
{
    let idx = match find_payment_index(db, payment_id) {
        Some(i) => i,
        None => {
            return Err(AppError::InternalServerError("Payment not found".to_owned()));
        },
    };
    let current = db.payments[idx].status;
    if !current.can_transition(new_status) {
        return Err(AppError::Conflict("Payment status transition not allowed".to_owned()));
    }
    match &transaction_id {
        Some(t) => {
            if transaction_id_taken_except(db, t.as_str(), Some(idx)) {
                return Err(AppError::Conflict("Transaction id already taken".to_owned()));
            }
        },
        None => {},
    }
    if db.next_stamp == u64::MAX {
        return Err(
            AppError::InternalServerError("Failed to update payment: store exhausted".to_owned()),
        );
    }
    let stamp = db.next_stamp;
    db.next_stamp = db.next_stamp + 1;
    let keep = match &transaction_id {
        Some(_) => false,
        None => true,
    };
    let p = &mut db.payments[idx];
    p.status = new_status;
    if !keep {
        p.transaction_id = transaction_id;
    }
    p.updated_at = stamp;
    let returned = db.payments[idx].clone();
    proof {
        lemma_payment_update_wf(old(db)@, db@, idx as int);
    }
    Ok(returned)
}

/// Rewriting one payment row in place keeps the store well-formed, provided
/// only its status, transaction id and update stamp change, the stamp comes
/// from the counter, and the new transaction id is not carried elsewhere.
proof fn lemma_payment_update_wf(pre: DbView, post: DbView, idx: int)
    requires
        db_wf(pre),
        0 <= idx < pre.payments.len(),
        post.users == pre.users,
        post.properties == pre.properties,
        post.next_id == pre.next_id,
        post.next_stamp == pre.next_stamp + 1,
        post.payments.len() == pre.payments.len(),
        forall|i: int|
            0 <= i < pre.payments.len() && i != idx ==> post.payments[i] == pre.payments[i],
        post.payments[idx].id == pre.payments[idx].id,
        post.payments[idx].user_id == pre.payments[idx].user_id,
        post.payments[idx].property_id == pre.payments[idx].property_id,
        post.payments[idx].created_at == pre.payments[idx].created_at,
        post.payments[idx].updated_at == pre.next_stamp,
        match post.payments[idx].transaction_id {
            Some(t) => !spec_transaction_id_taken_except(pre, t@, idx),
            None => true,
        },
    ensures
        db_wf(post),
{
    assert forall|i: int, j: int|
        #![trigger post.payments[i], post.payments[j]]
        0 <= i < j < post.payments.len() implies post.payments[i].id != post.payments[j].id
        && post.payments[i].created_at < post.payments[j].created_at && match (
        post.payments[i].transaction_id,
        post.payments[j].transaction_id,
    ) {
        (Some(a), Some(b)) => a@ != b@,
        _ => true,
    } by {
        if i != idx {
            assert(post.payments[i] == pre.payments[i]);
        }
        if j != idx {
            assert(post.payments[j] == pre.payments[j]);
        }
        assert(pre.payments[i].id != pre.payments[j].id);
        assert(pre.payments[i].created_at < pre.payments[j].created_at);
        if i == idx || j == idx {
            let k = if i == idx {
                j
            } else {
                i
            };
            assert(match (post.payments[idx].transaction_id, pre.payments[k].transaction_id) {
                (Some(a), Some(b)) => a@ != b@,
                _ => true,
            });
        }
    }
    assert forall|i: int|
        #![trigger post.payments[i]]
        0 <= i < post.payments.len() implies post.payments[i].id < post.next_id
        && post.payments[i].created_at <= post.payments[i].updated_at
        && post.payments[i].updated_at < post.next_stamp && spec_has_user_id(
        post,
        post.payments[i].user_id,
    ) && match post.payments[i].property_id {
        Some(p) => spec_has_property_id(post, p),
        None => true,
    } by {
        if i != idx {
            assert(post.payments[i] == pre.payments[i]);
        }
        assert(pre.payments[i].created_at <= pre.payments[i].updated_at);
        assert(spec_has_user_id(pre, pre.payments[i].user_id));
        let w = choose|k: int|
            0 <= k < pre.users.len() && pre.users[k].id == pre.payments[i].user_id;
        assert(post.users[w].id == post.payments[i].user_id);
        match pre.payments[i].property_id {
            Some(p) => {
                assert(spec_has_property_id(pre, p));
                let v = choose|k: int| 0 <= k < pre.properties.len() && pre.properties[k].id == p;
                assert(post.properties[v].id == p);
            },
            None => {},
        }
    }
    assert forall|i: int, j: int|
        #![trigger post.users[i], post.users[j]]
        0 <= i < j < post.users.len() implies post.users[i].username@ != post.users[j].username@
        && post.users[i].id != post.users[j].id by {
        assert(post.users[i] == pre.users[i]);
        assert(post.users[j] == pre.users[j]);
    }
    assert forall|i: int|
        #![trigger post.users[i]]
        0 <= i < post.users.len() implies post.users[i].id < post.next_id
        && post.users[i].username@.len() > 0 && post.users[i].created_at
        == post.users[i].updated_at && post.users[i].updated_at < post.next_stamp by {
        assert(post.users[i] == pre.users[i]);
    }
    assert forall|i: int, j: int|
        #![trigger post.properties[i], post.properties[j]]
        0 <= i < j < post.properties.len() implies post.properties[i].id
        != post.properties[j].id by {
        assert(post.properties[i] == pre.properties[i]);
        assert(post.properties[j] == pre.properties[j]);
    }
    assert forall|i: int|
        #![trigger post.properties[i]]
        0 <= i < post.properties.len() implies post.properties[i].id < post.next_id
        && post.properties[i].created_at == post.properties[i].updated_at
        && post.properties[i].updated_at < post.next_stamp by {
        assert(post.properties[i] == pre.properties[i]);
    }
}

/// A payment matches the filter when each present field equals the
/// payment's; absent fields impose no constraint.
pub open spec fn spec_matches_filter(
    p: Payment,
    user_id: Option<u64>,
    property_id: Option<u64>,
) -> bool {
    &&& match user_id {
        Some(u) => p.user_id == u,
        None => true,
    }
    &&& match property_id {
        Some(q) => p.property_id == Some(q),
        None => true,
    }
}

/// The payments of `s` that match the filter, in reverse order of `s`:
/// latest creation first.
pub open spec fn spec_filtered_desc(
    s: Seq<Payment>,
    user_id: Option<u64>,
    property_id: Option<u64>,
) -> Seq<Payment>
    decreases s.len(),
{
    if s.len() == 0 {
        Seq::empty()
    } else {
        let rest = spec_filtered_desc(s.drop_last(), user_id, property_id);
        if spec_matches_filter(s.last(), user_id, property_id) {
            seq![s.last()] + rest
        } else {
            rest
        }
    }
}

/// Exactly the matching payments appear in the filtered sequence.
pub proof fn lemma_filtered_desc_exactly(
    s: Seq<Payment>,
    user_id: Option<u64>,
    property_id: Option<u64>,
)
    ensures
        forall|p: Payment|
            #[trigger] spec_filtered_desc(s, user_id, property_id).contains(p) <==> (exists|k: int|
                0 <= k < s.len() && s[k] == p) && spec_matches_filter(p, user_id, property_id),
    decreases s.len(),
{
    if s.len() > 0 {
        lemma_filtered_desc_exactly(s.drop_last(), user_id, property_id);
        let rest = spec_filtered_desc(s.drop_last(), user_id, property_id);
        assert forall|p: Payment|
            #[trigger] spec_filtered_desc(s, user_id, property_id).contains(p) implies (exists|
            k: int|
            0 <= k < s.len() && s[k] == p) && spec_matches_filter(p, user_id, property_id) by {
            if spec_matches_filter(s.last(), user_id, property_id) {
                let f = seq![s.last()] + rest;
                let w = choose|w: int| 0 <= w < f.len() && f[w] == p;
                if w == 0 {
                    assert(s[s.len() - 1] == p);
                } else {
                    assert(rest[w - 1] == p);
                    assert(rest.contains(p));
                    let k = choose|k: int| 0 <= k < s.drop_last().len() && s.drop_last()[k] == p;
                    assert(s[k] == p);
                }
            } else {
                assert(rest.contains(p));
                let k = choose|k: int| 0 <= k < s.drop_last().len() && s.drop_last()[k] == p;
                assert(s[k] == p);
            }
        }
        assert forall|p: Payment|
            (exists|k: int| 0 <= k < s.len() && s[k] == p) && spec_matches_filter(
                p,
                user_id,
                property_id,
            ) implies #[trigger] spec_filtered_desc(s, user_id, property_id).contains(p) by {
            let k = choose|k: int| 0 <= k < s.len() && s[k] == p;
            let f = spec_filtered_desc(s, user_id, property_id);
            if k == s.len() - 1 {
                assert(f[0] == p);
            } else {
                assert(s.drop_last()[k] == p);
                assert(rest.contains(p));
                let w = choose|w: int| 0 <= w < rest.len() && rest[w] == p;
                if spec_matches_filter(s.last(), user_id, property_id) {
                    assert(f[w + 1] == p);
                } else {
                    assert(f[w] == p);
                }
            }
        }
    }
}

/// Filtering payments among which none matches yields the empty sequence,
/// not a fault: a user with no payments lists as empty.
pub proof fn lemma_filtered_desc_empty(
    s: Seq<Payment>,
    user_id: Option<u64>,
    property_id: Option<u64>,
)
    requires
        forall|k: int| 0 <= k < s.len() ==> !spec_matches_filter(#[trigger] s[k], user_id, property_id),
    ensures
        spec_filtered_desc(s, user_id, property_id) == Seq::<Payment>::empty(),
    decreases s.len(),
{
    if s.len() > 0 {
        assert forall|k: int|
            0 <= k < s.drop_last().len() implies !spec_matches_filter(
            #[trigger] s.drop_last()[k],
            user_id,
            property_id,
        ) by {
            assert(s.drop_last()[k] == s[k]);
        }
        lemma_filtered_desc_empty(s.drop_last(), user_id, property_id);
    }
}

/// A well-formed store never holds two user rows with one username:
/// registration can create a username once.
pub proof fn lemma_usernames_unique(db: DbView, i: int, j: int)
    requires
        db_wf(db),
        0 <= i < db.users.len(),
        0 <= j < db.users.len(),
        i != j,
    ensures
        db.users[i].username@ != db.users[j].username@,
{
    if i < j {
        assert(0 <= i < j < db.users.len());
    } else {
        assert(0 <= j < i < db.users.len());
    }
}

/// Lists payments, optionally filtered by user and property, newest
/// creation stamp first. An empty result is an empty sequence, not a fault.
pub fn list_payments(db: &Database, user_id: Option<u64>, property_id: Option<u64>) -> (r: Vec<
    Payment,
>)
    requires
        db.wf(),
    ensures
        r@ == spec_filtered_desc(db@.payments, user_id, property_id),
        forall|m: int|
            0 <= m < r@.len() ==> spec_matches_filter(#[trigger] r@[m], user_id, property_id),
        forall|m1: int, m2: int|
            #![trigger r@[m1], r@[m2]]
            0 <= m1 < m2 < r@.len() ==> r@[m1].created_at > r@[m2].created_at,
{
    let n = db.payments.len();
    let mut r: Vec<Payment> = Vec::new();
    let mut i: usize = 0;
    while i < n
        invariant
            i <= n,
            n == db@.payments.len(),
            db.wf(),
            r@ == spec_filtered_desc(db@.payments.take(i as int), user_id, property_id),
            forall|m: int|
                0 <= m < r@.len() ==> spec_matches_filter(#[trigger] r@[m], user_id, property_id),
            forall|m1: int, m2: int|
                #![trigger r@[m1], r@[m2]]
                0 <= m1 < m2 < r@.len() ==> r@[m1].created_at > r@[m2].created_at,
            forall|m: int|
                0 <= m < r@.len() ==> i > 0 && #[trigger] r@[m].created_at <= db@.payments[i
                    - 1].created_at,
        decreases n - i,
    {
        let matches_user = match user_id {
            Some(u) => db.payments[i].user_id == u,
            None => true,
        };
        let matches_property = match property_id {
            Some(q) => match db.payments[i].property_id {
                Some(p) => p == q,
                None => false,
            },
            None => true,
        };
        proof {
            let t = db@.payments.take(i + 1);
            assert(t.drop_last() =~= db@.payments.take(i as int));
            assert(t.last() == db@.payments[i as int]);
        }
        if matches_user && matches_property {
            let p = db.payments[i].clone();
            r.insert(0, p);
            proof {
                assert(r@ =~= seq![db@.payments[i as int]] + spec_filtered_desc(
                    db@.payments.take(i as int),
                    user_id,
                    property_id,
                ));
            }
        }
        i = i + 1;
    }
    proof {
        assert(db@.payments.take(n as int) =~= db@.payments);
    }
    r
}

/// Inserts a new property row.
pub fn create_property(db: &mut Database, new_property: CreateProperty) -> (r: Result<
    Property,
    AppError,
>)
    requires
        old(db).wf(),
    ensures
        final(db).wf(),
        match r {
            Ok(p) => {
                &&& spec_can_allocate(old(db)@)
                &&& p.id == old(db)@.next_id
                &&& p.address@ == new_property.address@
                &&& p.unit_number == new_property.unit_number
                &&& p.current_rent_amount == new_property.current_rent_amount
                &&& p.current_tenant_id == new_property.current_tenant_id
                &&& p.created_at == old(db)@.next_stamp
                &&& p.updated_at == p.created_at
                &&& final(db)@.properties == old(db)@.properties.push(p)
                &&& final(db)@.users == old(db)@.users
                &&& final(db)@.payments == old(db)@.payments
                &&& final(db)@.next_id == old(db)@.next_id + 1
                &&& final(db)@.next_stamp == old(db)@.next_stamp + 1
            },
            Err(e) => {
                &&& final(db)@ == old(db)@
                &&& e is InternalServerError
            },
        },
        r is Ok <==> spec_can_allocate(old(db)@),
{
    if db.next_id == u64::MAX || db.next_stamp == u64::MAX {
        return Err(
            AppError::InternalServerError("Failed to create property: store exhausted".to_owned()),
        );
    }
    let id = db.next_id;
    let stamp = db.next_stamp;
    db.next_id = db.next_id + 1;
    db.next_stamp = db.next_stamp + 1;
    let property = Property {
        id,
        address: new_property.address,
        unit_number: new_property.unit_number,
        current_rent_amount: new_property.current_rent_amount,
        current_tenant_id: new_property.current_tenant_id,
        created_at: stamp,
        updated_at: stamp,
    };
    let returned = property.clone();
    db.properties.push(property);
    proof {
        assert forall|i: int, j: int|
            #![trigger db@.properties[i], db@.properties[j]]
            0 <= i < j < db@.properties.len() implies db@.properties[i].id
            != db@.properties[j].id by {
            assert(db@.properties[i] == old(db)@.properties[i]);
            if j < db@.properties.len() - 1 {
                assert(db@.properties[j] == old(db)@.properties[j]);
            }
        }
        assert forall|i: int|
            #![trigger db@.properties[i]]
            0 <= i < db@.properties.len() implies db@.properties[i].id < db@.next_id
            && db@.properties[i].created_at == db@.properties[i].updated_at
            && db@.properties[i].updated_at < db@.next_stamp by {
            if i < db@.properties.len() - 1 {
                assert(db@.properties[i] == old(db)@.properties[i]);
            }
        }
        assert forall|i: int, j: int|
            #![trigger db@.users[i], db@.users[j]]
            0 <= i < j < db@.users.len() implies db@.users[i].username@ != db@.users[j].username@
            && db@.users[i].id != db@.users[j].id by {
            assert(db@.users[i] == old(db)@.users[i]);
            assert(db@.users[j] == old(db)@.users[j]);
        }
        assert forall|i: int|
            #![trigger db@.users[i]]
            0 <= i < db@.users.len() implies db@.users[i].id < db@.next_id
            && db@.users[i].username@.len() > 0 && db@.users[i].created_at
            == db@.users[i].updated_at && db@.users[i].updated_at < db@.next_stamp by {
            assert(db@.users[i] == old(db)@.users[i]);
        }
        assert forall|i: int, j: int|
            #![trigger db@.payments[i], db@.payments[j]]
            0 <= i < j < db@.payments.len() implies db@.payments[i].id != db@.payments[j].id
            && db@.payments[i].created_at < db@.payments[j].created_at && match (
            db@.payments[i].transaction_id,
            db@.payments[j].transaction_id,
        ) {
            (Some(a), Some(b)) => a@ != b@,
            _ => true,
        } by {
            assert(db@.payments[i] == old(db)@.payments[i]);
            assert(db@.payments[j] == old(db)@.payments[j]);
        }
        assert forall|i: int|
            #![trigger db@.payments[i]]
            0 <= i < db@.payments.len() implies db@.payments[i].id < db@.next_id
            && db@.payments[i].created_at <= db@.payments[i].updated_at
            && db@.payments[i].updated_at < db@.next_stamp && spec_has_user_id(
            db@,
            db@.payments[i].user_id,
        ) && match db@.payments[i].property_id {
            Some(p) => spec_has_property_id(db@, p),
            None => true,
        } by {
            assert(db@.payments[i] == old(db)@.payments[i]);
            assert(spec_has_user_id(old(db)@, old(db)@.payments[i].user_id));
            let w = choose|k: int|
                0 <= k < old(db)@.users.len() && old(db)@.users[k].id == old(
                    db,
                )@.payments[i].user_id;
            assert(db@.users[w].id == db@.payments[i].user_id);
            match old(db)@.payments[i].property_id {
                Some(p) => {
                    assert(spec_has_property_id(old(db)@, p));
                    let v = choose|k: int|
                        0 <= k < old(db)@.properties.len() && old(db)@.properties[k].id == p;
                    assert(db@.properties[v].id == p);
                },
                None => {},
            }
        }
    }
    Ok(returned)
}

/// Order on optional unit numbers: present ones lexicographically, an
/// absent one after every present one.
pub open spec fn spec_unit_number_le(a: Option<String>, b: Option<String>) -> bool {
    match (a, b) {
        (Some(x), Some(y)) => chars_le(x@, y@),
        (None, Some(_)) => false,
        (_, None) => true,
    }
}

/// The listing order of properties: ascending by address, and by unit
/// number within one address.
pub open spec fn spec_property_le(a: Property, b: Property) -> bool {
    if a.address@ == b.address@ {
        spec_unit_number_le(a.unit_number, b.unit_number)
    } else {
        chars_le(a.address@, b.address@)
    }
}

proof fn lemma_property_le_total(a: Property, b: Property)
    ensures
        spec_property_le(a, b) || spec_property_le(b, a),
{
    if a.address@ == b.address@ {
        match (a.unit_number, b.unit_number) {
            (Some(x), Some(y)) => lemma_chars_le_total(x@, y@),
            _ => {},
        }
    } else {
        lemma_chars_le_total(a.address@, b.address@);
    }
}

proof fn lemma_property_le_trans(a: Property, b: Property, c: Property)
    requires
        spec_property_le(a, b),
        spec_property_le(b, c),
    ensures
        spec_property_le(a, c),
{
    if a.address@ == b.address@ && b.address@ == c.address@ {
        match (a.unit_number, b.unit_number, c.unit_number) {
            (Some(x), Some(y), Some(z)) => lemma_chars_le_trans(x@, y@, z@),
            _ => {},
        }
    } else if a.address@ != b.address@ && b.address@ != c.address@ {
        lemma_chars_le_trans(a.address@, b.address@, c.address@);
        if a.address@ == c.address@ {
            lemma_chars_le_antisym(a.address@, b.address@);
        }
    }
}

fn unit_number_le(a: &Option<String>, b: &Option<String>) -> (r: bool)
    ensures
        r == spec_unit_number_le(*a, *b),
{
    match (a, b) {
        (Some(x), Some(y)) => str_le(x.as_str(), y.as_str()),
        (None, Some(_)) => false,
        (_, None) => true,
    }
}

fn property_le(a: &Property, b: &Property) -> (r: bool)
    ensures
        r == spec_property_le(*a, *b),
{
    if str_eq(a.address.as_str(), b.address.as_str()) {
        unit_number_le(&a.unit_number, &b.unit_number)
    } else {
        str_le(a.address.as_str(), b.address.as_str())
    }
}

/// Inserting one element anywhere adds exactly it to the sequence's
/// multiset of elements.
proof fn lemma_insert_to_multiset(s: Seq<Property>, k: int, x: Property)
    requires
        0 <= k <= s.len(),
    ensures
        s.insert(k, x).to_multiset() == s.to_multiset().insert(x),
{
    let a = s.take(k);
    let b = s.skip(k);
    a.to_multiset_ensures();
    b.to_multiset_ensures();
    s.to_multiset_ensures();
    Seq::<Property>::empty().to_multiset_ensures();
    assert(s.insert(k, x) =~= a + (seq![x] + b));
    assert(s =~= a + b);
    vstd::seq_lib::lemma_multiset_commutative(a, seq![x] + b);
    vstd::seq_lib::lemma_multiset_commutative(seq![x], b);
    vstd::seq_lib::lemma_multiset_commutative(a, b);
    assert(seq![x] =~= Seq::<Property>::empty().push(x));
    assert(Seq::<Property>::empty().to_multiset() =~= Multiset::<Property>::empty());
    assert(seq![x].to_multiset() =~= Multiset::<Property>::empty().insert(x));
    assert(s.insert(k, x).to_multiset() =~= s.to_multiset().insert(x));
}

/// The first position whose row is not at or before `p` in listing order.
fn find_insert_position(r: &Vec<Property>, p: &Property) -> (k: usize)
    ensures
        k <= r@.len(),
        forall|m: int| 0 <= m < k ==> spec_property_le(#[trigger] r@[m], *p),
        k < r@.len() ==> !spec_property_le(r@[k as int], *p),
{
    let n = r.len();
    let mut k: usize = 0;
    while k < n
        invariant
            k <= n,
            n == r@.len(),
            forall|m: int| 0 <= m < k ==> spec_property_le(#[trigger] r@[m], *p),
        decreases n - k,
    {
        if !property_le(&r[k], p) {
            return k;
        }
        k = k + 1;
    }
    k
}

/// Lists every property row, ascending by address and then by unit number
/// within one address; each stored row appears exactly once.
pub fn list_properties(db: &Database) -> (r: Vec<Property>)
    ensures
        r@.to_multiset() == db@.properties.to_multiset(),
        forall|m1: int, m2: int|
            #![trigger r@[m1], r@[m2]]
            0 <= m1 < m2 < r@.len() ==> spec_property_le(r@[m1], r@[m2]),
{
    let n = db.properties.len();
    let mut r: Vec<Property> = Vec::new();
    proof {
        assert(db@.properties.take(0) =~= r@);
    }
    let mut i: usize = 0;
    while i < n
        invariant
            i <= n,
            n == db@.properties.len(),
            r@.len() == i,
            r@.to_multiset() == db@.properties.take(i as int).to_multiset(),
            forall|m1: int, m2: int|
                #![trigger r@[m1], r@[m2]]
                0 <= m1 < m2 < r@.len() ==> spec_property_le(r@[m1], r@[m2]),
        decreases n - i,
    {
        let p = db.properties[i].clone();
        let k = find_insert_position(&r, &p);
        let ghost pre = r@;
        proof {
            if (k as int) < pre.len() {
                lemma_property_le_total(pre[k as int], p);
            }
        }
        r.insert(k, p);
        proof {
            lemma_insert_to_multiset(pre, k as int, p);
            db@.properties.take(i as int).to_multiset_ensures();
            assert(db@.properties.take(i + 1) =~= db@.properties.take(i as int).push(
                db@.properties[i as int],
            ));
            assert forall|m1: int, m2: int|
                #![trigger r@[m1], r@[m2]]
                0 <= m1 < m2 < r@.len() implies spec_property_le(r@[m1], r@[m2]) by {
                if m2 < k {
                    assert(r@[m1] == pre[m1]);
                    assert(r@[m2] == pre[m2]);
                } else if m1 < k && m2 == k {
                    assert(r@[m1] == pre[m1]);
                    assert(r@[m2] == p);
                } else if m1 < k && m2 > k {
                    assert(r@[m1] == pre[m1]);
                    assert(r@[m2] == pre[m2 - 1]);
                } else if m1 == k {
                    assert(r@[m1] == p);
                    assert(r@[m2] == pre[m2 - 1]);
                    assert(spec_property_le(p, pre[k as int]));
                    if m2 - 1 > k {
                        lemma_property_le_trans(p, pre[k as int], pre[m2 - 1]);
                    }
                } else {
                    assert(r@[m1] == pre[m1 - 1]);
                    assert(r@[m2] == pre[m2 - 1]);
                }
            }
        }
        i = i + 1;
    }
    proof {
        assert(db@.properties.take(n as int) =~= db@.properties);
    }
    r
}

} // verus!
