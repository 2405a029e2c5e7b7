//! The records the API serves and the work of its query and mutation resolvers
//! that does not touch the database.

use vstd::prelude::*;
use crate::date::Date;
use crate::ident::{hyphenated, lemma_parse_hyphenated, is_random_uuid, parse_uuid, parsed_uuid, random_uuid, uuid_text};

verus! {

/// What `str::to_lowercase` makes of a text.
pub uninterp spec fn lower_of(s: Seq<char>) -> Seq<char>;

/// Relies on str::to_lowercase: the result depends on the characters alone.
#[verifier::external_body]
fn lowercase(s: &str) -> (r: String)
    ensures
        r@ == lower_of(s@),
{
    s.to_lowercase()
}

/// A registered member of the club.
pub struct Member {
    pub id: String,
    pub email: String,
    pub firstname: String,
    pub lastname: String,
    pub birthdate: Date,
}

/// A ride logged by a member.
pub struct Ride {
    pub id: String,
    pub name: String,
    pub description: String,
    pub distance: i32,
    pub started: Date,
    pub ended: Date,
}

/// A stored member as the member table returns it, keyed by its UUID.
pub struct MemberRow {
    pub id: u128,
    pub email: String,
    pub firstname: String,
    pub lastname: String,
    pub birthdate: Date,
}

/// Every entry of `s` is `Ok`.
pub open spec fn all_ok<T, E>(s: Seq<Result<T, E>>) -> bool {
    forall|i: int| 0 <= i < s.len() ==> s[i] is Ok
}

/// Entry `k` of `s` is the first that is an `Err`.
pub open spec fn first_err_at<T, E>(s: Seq<Result<T, E>>, k: int) -> bool {
    &&& 0 <= k < s.len()
    &&& s[k] is Err
    &&& forall|i: int| 0 <= i < k ==> s[i] is Ok
}

/// The member `row` stands for, its key written as hyphenated text.
pub open spec fn member_of_row(m: Member, row: MemberRow) -> bool {
    &&& m.id@ == hyphenated(row.id)
    &&& m.email@ == row.email@
    &&& m.firstname@ == row.firstname@
    &&& m.lastname@ == row.lastname@
    &&& m.birthdate == row.birthdate
}

/// The id under which a stored member is listed reads back, as a member id,
/// to the key of its row: looking the member up by that id finds the same row.
pub proof fn lemma_listed_member_key(m: Member, row: MemberRow)
    requires
        member_of_row(m, row),
    ensures
        parsed_uuid(m.id@) == Some(row.id),
{
    lemma_parse_hyphenated(row.id);
}

impl Member {
    pub fn id(&self) -> (r: &str)
        ensures
            r@ == self.id@,
    {
        self.id.as_str()
    }

    pub fn email(&self) -> (r: &str)
        ensures
            r@ == self.email@,
    {
        self.email.as_str()
    }

    pub fn firstname(&self) -> (r: &str)
        ensures
            r@ == self.firstname@,
    {
        self.firstname.as_str()
    }

    pub fn lastname(&self) -> (r: &str)
        ensures
            r@ == self.lastname@,
    {
        self.lastname.as_str()
    }

    pub fn birthdate(&self) -> (r: Date)
        ensures
            r == self.birthdate,
    {
        self.birthdate
    }

    /// The rides that the rows of the ride table hold for a member, in the
    /// same order, or the error of the first row that could not be read.
    pub fn rides<E>(rows: Vec<Result<Ride, E>>) -> (r: Result<Vec<Ride>, E>)
        ensures
            r is Ok <==> all_ok(rows@),
            r is Ok ==> r->Ok_0.len() == rows.len() && forall|i: int|
                0 <= i < rows.len() ==> #[trigger] r->Ok_0[i] == rows[i]->Ok_0,
            r is Err ==> exists|k: int| first_err_at(rows@, k) && r->Err_0 == rows[k]->Err_0,
    {
        let ghost all = rows@;
        let mut rest = rows;
        let mut out: Vec<Ride> = Vec::new();
        while rest.len() > 0
            invariant
                all == rows@,
                out.len() <= all.len(),
                rest@ == all.subrange(out.len() as int, all.len() as int),
                forall|j: int| 0 <= j < out.len() ==> all[j] is Ok,
                forall|j: int| 0 <= j < out.len() ==> #[trigger] out[j] == all[j]->Ok_0,
            decreases rest.len(),
        {
            let ghost k = out.len() as int;
            assert(rest@[0] == all[k]);
            let item = rest.remove(0);
            match item {
                Ok(ride) => {
                    out.push(ride);
                },
                Err(e) => {
                    assert(first_err_at(all, k));
                    assert(!all_ok(all));
                    return Err(e);
                },
            }
        }
        Ok(out)
    }
}

/// The root of the read-only operations.
pub struct QueryRoot;

impl QueryRoot {
    /// The key under which the member with the text id `id` is stored, or the
    /// reason `id` names no UUID.
    pub fn member_key(id: &str) -> (r: Result<u128, uuid::Error>)
        ensures
            r is Ok <==> parsed_uuid(id@) is Some,
            r is Ok ==> parsed_uuid(id@) == Some(r->Ok_0),
    {
        parse_uuid(id)
    }

    /// The member looked up by `id`, from the columns of its stored row. The
    /// id is kept as the caller wrote it.
    pub fn member(id: String, email: String, firstname: String, lastname: String, birthdate: Date) -> (r: Member)
        ensures
            r.id@ == id@,
            r.email@ == email@,
            r.firstname@ == firstname@,
            r.lastname@ == lastname@,
            r.birthdate == birthdate,
    {
        Member { id, email, firstname, lastname, birthdate }
    }

    /// The members that the rows of the member table stand for, in the same
    /// order, or the error of the first row that could not be read.
    pub fn members<E>(rows: Vec<Result<MemberRow, E>>) -> (r: Result<Vec<Member>, E>)
        ensures
            r is Ok <==> all_ok(rows@),
            r is Ok ==> r->Ok_0.len() == rows.len() && forall|i: int|
                0 <= i < rows.len() ==> member_of_row(#[trigger] r->Ok_0[i], rows[i]->Ok_0),
            r is Err ==> exists|k: int| first_err_at(rows@, k) && r->Err_0 == rows[k]->Err_0,
    {
        let ghost all = rows@;
        let mut rest = rows;
        let mut out: Vec<Member> = Vec::new();
        while rest.len() > 0
            invariant
                all == rows@,
                out.len() <= all.len(),
                rest@ == all.subrange(out.len() as int, all.len() as int),
                forall|j: int| 0 <= j < out.len() ==> all[j] is Ok,
                forall|j: int| 0 <= j < out.len() ==> member_of_row(#[trigger] out[j], all[j]->Ok_0),
            decreases rest.len(),
        {
            let ghost k = out.len() as int;
            assert(rest@[0] == all[k]);
            let item = rest.remove(0);
            match item {
                Ok(row) => {
                    out.push(Member {
                        id: uuid_text(row.id),
                        email: row.email,
                        firstname: row.firstname,
                        lastname: row.lastname,
                        birthdate: row.birthdate,
                    });
                },
                Err(e) => {
                    assert(first_err_at(all, k));
                    assert(!all_ok(all));
                    return Err(e);
                },
            }
        }
        Ok(out)
    }
}

/// The root of the operations that store data.
pub struct MutationRoot;

impl MutationRoot {
    /// The member stored under the key `id`: its e-mail address is kept in
    /// lower case.
    pub fn new_member(id: u128, email: &str, firstname: String, lastname: String, birthdate: Date) -> (r: Member)
        ensures
            r.id@ == hyphenated(id),
            parsed_uuid(r.id@) == Some(id),
            r.email@ == lower_of(email@),
            r.firstname@ == firstname@,
            r.lastname@ == lastname@,
            r.birthdate == birthdate,
    {
        proof {
            lemma_parse_hyphenated(id);
        }
        Member { id: uuid_text(id), email: lowercase(email), firstname, lastname, birthdate }
    }

    /// Registers a member under a fresh random key; gives the key and the
    /// member to store.
    pub fn register_member(email: &str, firstname: String, lastname: String, birthdate: Date) -> (r: (u128, Member))
        ensures
            is_random_uuid(r.0),
            r.1.id@ == hyphenated(r.0),
            parsed_uuid(r.1.id@) == Some(r.0),
            r.1.email@ == lower_of(email@),
            r.1.firstname@ == firstname@,
            r.1.lastname@ == lastname@,
            r.1.birthdate == birthdate,
    {
        let id = random_uuid();
        (id, MutationRoot::new_member(id, email, firstname, lastname, birthdate))
    }

    /// The ride stored under the key `id`: a new ride has covered no distance.
    pub fn new_ride(id: u128, name: String, description: String, started: Date, ended: Date) -> (r: Ride)
        ensures
            r.id@ == hyphenated(id),
            parsed_uuid(r.id@) == Some(id),
            r.name@ == name@,
            r.description@ == description@,
            r.distance == 0,
            r.started == started,
            r.ended == ended,
    {
        proof {
            lemma_parse_hyphenated(id);
        }
        Ride { id: uuid_text(id), name, description, distance: 0, started, ended }
    }

    /// Registers a ride under a fresh random key; gives the key and the ride
    /// to store.
    pub fn register_ride(name: String, description: String, started: Date, ended: Date) -> (r: (u128, Ride))
        ensures
            is_random_uuid(r.0),
            r.1.id@ == hyphenated(r.0),
            parsed_uuid(r.1.id@) == Some(r.0),
            r.1.name@ == name@,
            r.1.description@ == description@,
            r.1.distance == 0,
            r.1.started == started,
            r.1.ended == ended,
    {
        let id = random_uuid();
        (id, MutationRoot::new_ride(id, name, description, started, ended))
    }
}

} // verus!
