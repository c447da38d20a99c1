//! Generation of the mock datasets: people with unique full names and
//! unique citizen ids, and a salary for each citizen id.

use vstd::prelude::*;
use vstd::hash_set::StringHashSet;
use crate::text::{decimal_text, u64_to_decimal};

verus! {

/// The thread-local random number generator of `rand`.
#[verifier::external_type_specification]
#[verifier::external_body]
pub struct ExThreadRng(rand::rngs::ThreadRng);

/// `rand::rng`: a handle to the thread-local generator.
#[verifier::external_body]
fn thread_rng() -> rand::rngs::ThreadRng {
    rand::rng()
}

/// `Rng::random_range` over the inclusive range `lo..=hi`: a value of the
/// range, which one is left open.  It panics on an empty range, which the
/// `requires` rules out.
#[verifier::external_body]
fn random_i32_in(rng: &mut rand::rngs::ThreadRng, lo: i32, hi: i32) -> (r: i32)
    requires
        lo <= hi,
    ensures
        lo <= r <= hi,
{
    rand::Rng::random_range(rng, lo..=hi)
}

/// `Fake::fake` with the English `FirstName` faker: some first name.
#[verifier::external_body]
fn fake_first_name() -> String {
    fake::Fake::fake::<String>(&fake::faker::name::en::FirstName())
}

/// `Fake::fake` with the English `LastName` faker: some last name.
#[verifier::external_body]
fn fake_last_name() -> String {
    fake::Fake::fake::<String>(&fake::faker::name::en::LastName())
}

/// `Fake::fake` with the English `StreetName` faker: some street name.
#[verifier::external_body]
fn fake_street_name() -> String {
    fake::Fake::fake::<String>(&fake::faker::address::en::StreetName())
}

/// The text of a citizen id made of five numbers joined by dashes.
pub open spec fn citizen_id_text(a: int, b: int, c: int, d: int, e: int) -> Seq<char> {
    decimal_text(a as nat) + "-"@ + decimal_text(b as nat) + "-"@ + decimal_text(c as nat) + "-"@
        + decimal_text(d as nat) + "-"@ + decimal_text(e as nat)
}

/// The five numbers of a citizen id lie in their ranges: 1 to 9, 1000 to
/// 9999, 10000 to 99999, 10 to 99 and 0 to 9.
pub open spec fn citizen_id_parts_in_range(a: int, b: int, c: int, d: int, e: int) -> bool {
    &&& 1 <= a <= 9
    &&& 1000 <= b <= 9999
    &&& 10000 <= c <= 99999
    &&& 10 <= d <= 99
    &&& 0 <= e <= 9
}

/// `s` is a well-formed citizen id.
pub open spec fn is_citizen_id(s: Seq<char>) -> bool {
    exists|a: int, b: int, c: int, d: int, e: int|
        citizen_id_parts_in_range(a, b, c, d, e) && s == #[trigger] citizen_id_text(a, b, c, d, e)
}

/// A number from `10^(k-1)` up to `10^k - 1` has `k` decimal digits.
proof fn lemma_decimal_len(n: nat, k: nat, low: nat)
    requires
        k >= 1,
        low as int == vstd::arithmetic::power::pow(10, (k - 1) as nat),
        (k == 1 || low <= n),
        n < low * 10,
    ensures
        decimal_text(n).len() == k,
    decreases k,
{
    vstd::arithmetic::power::lemma_pow_positive(10, (k - 1) as nat);
    if k == 1 {
        vstd::arithmetic::power::lemma_pow0(10);
        assert(n < 10);
    } else {
        vstd::arithmetic::power::lemma_pow_adds(10, (k - 2) as nat, 1);
        vstd::arithmetic::power::lemma_pow1(10);
        let lower = vstd::arithmetic::power::pow(10, (k - 2) as nat);
        assert(low == lower * 10);
        vstd::arithmetic::power::lemma_pow_positive(10, (k - 2) as nat);
        assert(n >= 10) by (nonlinear_arith)
            requires low <= n, low == lower * 10, lower >= 1;
        assert(k == 2 || lower <= n / 10) by (nonlinear_arith)
            requires low <= n, low == lower * 10, lower >= 1, k >= 2, k == 2 ==> lower == 1;
        assert(n / 10 < lower * 10) by (nonlinear_arith)
            requires n < low * 10, low == lower * 10, lower >= 1;
        if k == 2 {
            vstd::arithmetic::power::lemma_pow0(10);
        }
        lemma_decimal_len(n / 10, (k - 1) as nat, lower as nat);
    }
}

/// A citizen id with its numbers in range has the fixed shape
/// `D-DDDD-DDDDD-DD-D`: 17 characters, dashes at positions 1, 6, 12 and 15.
pub proof fn lemma_citizen_id_shape(a: int, b: int, c: int, d: int, e: int)
    requires
        citizen_id_parts_in_range(a, b, c, d, e),
    ensures
        citizen_id_text(a, b, c, d, e).len() == 17,
        citizen_id_text(a, b, c, d, e)[1] == '-',
        citizen_id_text(a, b, c, d, e)[6] == '-',
        citizen_id_text(a, b, c, d, e)[12] == '-',
        citizen_id_text(a, b, c, d, e)[15] == '-',
{
    reveal_with_fuel(vstd::arithmetic::power::pow, 5);
    lemma_decimal_len(a as nat, 1, 1);
    lemma_decimal_len(b as nat, 4, 1000);
    lemma_decimal_len(c as nat, 5, 10000);
    lemma_decimal_len(d as nat, 2, 10);
    lemma_decimal_len(e as nat, 1, 1);
    reveal_strlit("-");
}

/// The citizen id of five numbers, joined by dashes.
pub fn format_citizen_id(a: i32, b: i32, c: i32, d: i32, e: i32) -> (s: String)
    requires
        a >= 0,
        b >= 0,
        c >= 0,
        d >= 0,
        e >= 0,
    ensures
        s@ == citizen_id_text(a as int, b as int, c as int, d as int, e as int),
{
    u64_to_decimal(a as u64)
        .concat("-")
        .concat(u64_to_decimal(b as u64).as_str())
        .concat("-")
        .concat(u64_to_decimal(c as u64).as_str())
        .concat("-")
        .concat(u64_to_decimal(d as u64).as_str())
        .concat("-")
        .concat(u64_to_decimal(e as u64).as_str())
}

/// A random citizen id: five random numbers in their ranges, joined by
/// dashes.
pub fn generate_citizen_id() -> (s: String)
    ensures
        is_citizen_id(s@),
{
    let mut rng = thread_rng();
    let a = random_i32_in(&mut rng, 1, 9);
    let b = random_i32_in(&mut rng, 1000, 9999);
    let c = random_i32_in(&mut rng, 10000, 99999);
    let d = random_i32_in(&mut rng, 10, 99);
    let e = random_i32_in(&mut rng, 0, 9);
    let s = format_citizen_id(a, b, c, d, e);
    assert(citizen_id_parts_in_range(a as int, b as int, c as int, d as int, e as int));
    assert(s@ == citizen_id_text(a as int, b as int, c as int, d as int, e as int));
    s
}

/// The full name of a person: first name, a space, last name.
pub open spec fn full_name_text(first: Seq<char>, last: Seq<char>) -> Seq<char> {
    first + " "@ + last
}

/// The full name of a person.
pub fn full_name(first: &str, last: &str) -> (s: String)
    ensures
        s@ == full_name_text(first@, last@),
{
    String::from_str(first).concat(" ").concat(last)
}

/// One row of the people dataset.
#[derive(Debug)]
pub struct MockPerson {
    pub first_name: String,
    pub last_name: String,
    pub citizen_id: String,
    pub address: String,
}

pub open spec fn person_full_name(p: MockPerson) -> Seq<char> {
    full_name_text(p.first_name@, p.last_name@)
}

/// The full names of the given people.
pub open spec fn people_full_names(people: Seq<MockPerson>) -> Set<Seq<char>> {
    Set::new(
        |s: Seq<char>| exists|i: int| 0 <= i < people.len() && person_full_name(#[trigger] people[i]) == s,
    )
}

/// The citizen ids of the given people.
pub open spec fn people_citizen_ids(people: Seq<MockPerson>) -> Set<Seq<char>> {
    Set::new(|s: Seq<char>| exists|i: int| 0 <= i < people.len() && (#[trigger] people[i]).citizen_id@ == s)
}

/// Appending a person adds its full name and its citizen id to those in use.
proof fn lemma_push_person(people: Seq<MockPerson>, p: MockPerson)
    ensures
        people_full_names(people.push(p)) == people_full_names(people).insert(person_full_name(p)),
        people_citizen_ids(people.push(p)) == people_citizen_ids(people).insert(p.citizen_id@),
{
    let q = people.push(p);
    assert(q[people.len() as int] == p);
    assert forall|s: Seq<char>| #[trigger] people_full_names(q).contains(s) <==> people_full_names(
        people,
    ).insert(person_full_name(p)).contains(s) by {
        if people_full_names(q).contains(s) {
            let i = choose|i: int| 0 <= i < q.len() && person_full_name(#[trigger] q[i]) == s;
            if i < people.len() {
                assert(q[i] == people[i]);
            }
        }
        if people_full_names(people).contains(s) {
            let i = choose|i: int| 0 <= i < people.len() && person_full_name(#[trigger] people[i]) == s;
            assert(q[i] == people[i]);
        }
    }
    assert forall|s: Seq<char>| #[trigger] people_citizen_ids(q).contains(s) <==> people_citizen_ids(
        people,
    ).insert(p.citizen_id@).contains(s) by {
        if people_citizen_ids(q).contains(s) {
            let i = choose|i: int| 0 <= i < q.len() && (#[trigger] q[i]).citizen_id@ == s;
            if i < people.len() {
                assert(q[i] == people[i]);
            }
        }
        if people_citizen_ids(people).contains(s) {
            let i = choose|i: int| 0 <= i < people.len() && (#[trigger] people[i]).citizen_id@ == s;
            assert(q[i] == people[i]);
        }
    }
    assert(people_full_names(q) =~= people_full_names(people).insert(person_full_name(p)));
    assert(people_citizen_ids(q) =~= people_citizen_ids(people).insert(p.citizen_id@));
}

/// Generator of the people dataset.  A name is offered first and kept when
/// its full name is new; the kept name then waits for a citizen id that is
/// new, and is completed with it and a street address.
pub struct MockGenerator {
    full_names: StringHashSet,
    citizen_ids: StringHashSet,
    pending: Option<(String, String)>,
    people: Vec<MockPerson>,
}

impl MockGenerator {
    /// The people generated so far, in order.
    pub closed spec fn people_view(&self) -> Seq<MockPerson> {
        self.people@
    }

    /// The name kept and still waiting for a citizen id, if any.
    pub closed spec fn pending_view(&self) -> Option<(Seq<char>, Seq<char>)> {
        match self.pending {
            Some((first, last)) => Some((first@, last@)),
            None => None,
        }
    }

    /// The generator's bookkeeping is consistent: the full names in use are
    /// exactly those of the people and of the kept name, the citizen ids in
    /// use are exactly those of the people, the people have distinct full
    /// names and distinct well-formed citizen ids, and the kept name differs
    /// from every person's.
    pub closed spec fn wf(&self) -> bool {
        &&& self.citizen_ids@ == people_citizen_ids(self.people@)
        &&& match self.pending {
            Some((first, last)) => {
                &&& self.full_names@ == people_full_names(self.people@).insert(full_name_text(first@, last@))
                &&& !people_full_names(self.people@).contains(full_name_text(first@, last@))
            },
            None => self.full_names@ == people_full_names(self.people@),
        }
        &&& forall|i: int| 0 <= i < self.people.len() ==> is_citizen_id((#[trigger] self.people[i]).citizen_id@)
        &&& forall|i: int, j: int| 0 <= i < j < self.people.len() ==> {
            &&& person_full_name(#[trigger] self.people[i]) != person_full_name(#[trigger] self.people[j])
            &&& self.people[i].citizen_id@ != self.people[j].citizen_id@
        }
    }

    /// The people of a consistent generator have pairwise distinct full
    /// names and pairwise distinct citizen ids, each of the form
    /// `D-DDDD-DDDDD-DD-D`.
    pub proof fn lemma_people_distinct(&self)
        requires
            self.wf(),
        ensures
            forall|i: int, j: int| 0 <= i < j < self.people_view().len() ==> {
                &&& person_full_name(#[trigger] self.people_view()[i]) != person_full_name(
                    #[trigger] self.people_view()[j],
                )
                &&& self.people_view()[i].citizen_id@ != self.people_view()[j].citizen_id@
            },
            forall|i: int| 0 <= i < self.people_view().len() ==> is_citizen_id(
                (#[trigger] self.people_view()[i]).citizen_id@,
            ),
    {
    }

    /// A generator with nobody yet.
    pub fn new() -> (g: Self)
        ensures
            g.wf(),
            g.people_view().len() == 0,
            g.pending_view() is None,
    {
        let g = MockGenerator {
            full_names: StringHashSet::new(),
            citizen_ids: StringHashSet::new(),
            pending: None,
            people: Vec::new(),
        };
        assert(people_full_names(g.people@) =~= Set::empty());
        assert(people_citizen_ids(g.people@) =~= Set::empty());
        g
    }

    /// Number of people generated.
    pub fn len(&self) -> (n: usize)
        ensures
            n == self.people_view().len(),
    {
        self.people.len()
    }

    /// The people generated, in order.
    pub fn people(&self) -> (p: &Vec<MockPerson>)
        ensures
            p@ == self.people_view(),
    {
        &self.people
    }

    /// Offers a drawn name while no name is kept.  The name is kept, waiting
    /// for a citizen id, exactly when no person has its full name; otherwise
    /// the generator stays as it was.
    pub fn offer_name(&mut self, first: String, last: String) -> (kept: bool)
        requires
            old(self).wf(),
            old(self).pending_view() is None,
        ensures
            final(self).wf(),
            final(self).people_view() == old(self).people_view(),
            kept == !people_full_names(old(self).people_view()).contains(full_name_text(first@, last@)),
            kept ==> final(self).pending_view() == Some((first@, last@)),
            !kept ==> final(self).pending_view() is None,
    {
        let full = full_name(first.as_str(), last.as_str());
        if self.full_names.insert(full) {
            self.pending = Some((first, last));
            true
        } else {
            assert(self.full_names@ =~= old(self).full_names@);
            false
        }
    }

    /// Whether no person holds the citizen id `id`.
    pub fn is_new_citizen_id(&self, id: &str) -> (new: bool)
        requires
            self.wf(),
        ensures
            new == !people_citizen_ids(self.people_view()).contains(id@),
    {
        !self.citizen_ids.contains(id)
    }

    /// Completes the kept name with a citizen id that no person holds and a
    /// street address: the person is appended and the name released.
    pub fn complete_person(&mut self, id: String, address: String)
        requires
            old(self).wf(),
            old(self).pending_view() is Some,
            is_citizen_id(id@),
            !people_citizen_ids(old(self).people_view()).contains(id@),
        ensures
            final(self).wf(),
            final(self).pending_view() is None,
            final(self).people_view().len() == old(self).people_view().len() + 1,
            final(self).people_view().drop_last() == old(self).people_view(),
            final(self).people_view().last().first_name@ == old(self).pending_view().unwrap().0,
            final(self).people_view().last().last_name@ == old(self).pending_view().unwrap().1,
            final(self).people_view().last().citizen_id@ == id@,
            final(self).people_view().last().address@ == address@,
    {
        let ghost old_people = self.people@;
        self.citizen_ids.insert(id.clone());
        let (first, last) = match self.pending.take() {
            Some(p) => p,
            None => {
                assert(false);
                return ;
            },
        };
        let person = MockPerson { first_name: first, last_name: last, citizen_id: id, address };
        let ghost p = person;
        self.people.push(person);
        proof {
            lemma_push_person(old_people, p);
            assert(self.people@ == old_people.push(p));
            let n = old_people.len() as int;
            assert forall|i: int, j: int| 0 <= i < j < self.people.len() implies {
                &&& person_full_name(#[trigger] self.people[i]) != person_full_name(#[trigger] self.people[j])
                &&& self.people[i].citizen_id@ != self.people[j].citizen_id@
            } by {
                assert(self.people[i] == old_people[i]);
                if j == n {
                    assert(people_full_names(old_people).contains(person_full_name(old_people[i])));
                    assert(people_citizen_ids(old_people).contains(old_people[i].citizen_id@));
                } else {
                    assert(self.people[j] == old_people[j]);
                }
            }
            assert forall|i: int| 0 <= i < self.people.len() implies is_citizen_id(
                (#[trigger] self.people[i]).citizen_id@,
            ) by {
                if i < n {
                    assert(self.people[i] == old_people[i]);
                }
            }
            assert(self.people@.drop_last() =~= old_people);
        }
    }

    /// One generation step.  Without a kept name it draws a first and a last
    /// name and offers them; with one it draws a citizen id and, when no
    /// person holds it, a street address, and completes the person.  Returns
    /// whether a person was completed.
    pub fn step(&mut self) -> (added: bool)
        requires
            old(self).wf(),
        ensures
            final(self).wf(),
            !added ==> final(self).people_view() == old(self).people_view(),
            old(self).pending_view() is None ==> {
                &&& !added
                &&& final(self).pending_view() matches Some((first, last)) ==> !people_full_names(
                    old(self).people_view(),
                ).contains(full_name_text(first, last))
            },
            old(self).pending_view() matches Some((first, last)) ==> if added {
                let p = final(self).people_view().last();
                &&& final(self).pending_view() is None
                &&& final(self).people_view().drop_last() == old(self).people_view()
                &&& p.first_name@ == first
                &&& p.last_name@ == last
                &&& is_citizen_id(p.citizen_id@)
                &&& !people_citizen_ids(old(self).people_view()).contains(p.citizen_id@)
            } else {
                final(self).pending_view() == old(self).pending_view()
            },
    {
        if self.pending.is_none() {
            let first = fake_first_name();
            let last = fake_last_name();
            self.offer_name(first, last);
            false
        } else {
            let id = generate_citizen_id();
            if self.is_new_citizen_id(id.as_str()) {
                let address = fake_street_name();
                self.complete_person(id, address);
                true
            } else {
                false
            }
        }
    }
}

/// The header row of the people dataset.
pub fn people_header() -> (h: Vec<String>)
    ensures
        h.deep_view() == seq!["first_name"@, "last_name"@, "citizen_id"@, "address"@],
{
    let mut h: Vec<String> = Vec::new();
    h.push(String::from_str("first_name"));
    h.push(String::from_str("last_name"));
    h.push(String::from_str("citizen_id"));
    h.push(String::from_str("address"));
    assert(h.deep_view() =~= seq!["first_name"@, "last_name"@, "citizen_id"@, "address"@]);
    h
}

/// The header row of the salary dataset.
pub fn salary_header() -> (h: Vec<String>)
    ensures
        h.deep_view() == seq!["citizen_id"@, "salary"@],
{
    let mut h: Vec<String> = Vec::new();
    h.push(String::from_str("citizen_id"));
    h.push(String::from_str("salary"));
    assert(h.deep_view() =~= seq!["citizen_id"@, "salary"@]);
    h
}

/// One row of the salary dataset.
#[derive(Debug)]
pub struct SalaryRecord {
    pub citizen_id: String,
    pub salary: i32,
}

/// A salary for each person, in order: the person's citizen id and a random
/// salary from 15,000 to 150,000.
pub fn generate_salaries(people: &Vec<MockPerson>) -> (records: Vec<SalaryRecord>)
    ensures
        records.len() == people.len(),
        forall|i: int| 0 <= i < records.len() ==> {
            &&& (#[trigger] records[i]).citizen_id@ == people[i].citizen_id@
            &&& 15_000 <= records[i].salary <= 150_000
        },
{
    let mut rng = thread_rng();
    let mut records: Vec<SalaryRecord> = Vec::new();
    let mut i: usize = 0;
    while i < people.len()
        invariant
            i <= people.len(),
            records.len() == i,
            forall|k: int| 0 <= k < i ==> {
                &&& (#[trigger] records[k]).citizen_id@ == people[k].citizen_id@
                &&& 15_000 <= records[k].salary <= 150_000
            },
        decreases people.len() - i,
    {
        let salary = random_i32_in(&mut rng, 15_000, 150_000);
        records.push(SalaryRecord { citizen_id: people[i].citizen_id.clone(), salary });
        i = i + 1;
    }
    records
}

} // verus!
