//! Snapshots of the backing store's records.
//!
//! A snapshot is rebuilt whole from what was fetched. Where the fetch failed
//! the snapshot is empty: the service goes on, and knows nobody.

use crate::model::{Admin, AdminView, Campus, Candidate, Voter, VoterView};
use crate::table::{entries_upto, lemma_entries_upto_ends, lemma_entries_upto_step, StrMap};
use vstd::prelude::*;

verus! {

/// The voters of `records` by name. Of two records with one name the later
/// one stays.
pub open spec fn index_voters(records: Seq<Voter>) -> Map<Seq<char>, VoterView>
    decreases records.len(),
{
    if records.len() == 0 {
        Map::empty()
    } else {
        index_voters(records.drop_last()).insert(records.last().name@, records.last()@)
    }
}

/// The views of the voters in `rows`.
pub open spec fn voter_views(rows: Map<Seq<char>, Voter>) -> Map<Seq<char>, VoterView> {
    Map::new(|name: Seq<char>| rows.contains_key(name), |name: Seq<char>| rows[name]@)
}

/// Cached voters, found by name.
pub struct VoterTable {
    rows: StrMap<Voter>,
}

impl View for VoterTable {
    type V = Map<Seq<char>, VoterView>;

    closed spec fn view(&self) -> Map<Seq<char>, VoterView> {
        voter_views(self.rows@)
    }
}

impl VoterTable {
    /// Every voter stands under its own name.
    #[verifier::type_invariant]
    closed spec fn wf(&self) -> bool {
        forall|name: Seq<char>| #[trigger]
            self.rows@.contains_key(name) ==> self.rows@[name].name@ == name
    }

    /// Names of the cached voters, in row order.
    pub closed spec fn names(&self) -> Seq<Seq<char>> {
        self.rows.keys()
    }

    /// The cached names are the names in the rows.
    pub proof fn lemma_names(&self)
        ensures
            forall|name: Seq<char>| self@.contains_key(name) <==> self.names().contains(name),
    {
    }

    /// A table that knows nobody.
    pub fn new() -> (table: VoterTable)
        ensures
            table@ == Map::<Seq<char>, VoterView>::empty(),
    {
        let table = VoterTable { rows: StrMap::new() };
        assert(table@ =~= Map::<Seq<char>, VoterView>::empty());
        table
    }

    /// The table of `records`.
    pub fn from_records(records: &Vec<Voter>) -> (table: VoterTable)
        ensures
            table@ == index_voters(records@),
    {
        let mut rows: StrMap<Voter> = StrMap::new();
        let mut i: usize = 0;
        assert(records@.take(0) =~= Seq::<Voter>::empty());
        assert(voter_views(rows@) =~= index_voters(records@.take(0)));
        while i < records.len()
            invariant
                i <= records.len(),
                voter_views(rows@) == index_voters(records@.take(i as int)),
                forall|name: Seq<char>| #[trigger]
                    rows@.contains_key(name) ==> rows@[name].name@ == name,
            decreases records.len() - i,
        {
            let voter = records[i].clone();
            let name = voter.name.clone();
            let ghost before = rows@;
            rows.insert(name, voter);
            proof {
                let upto = records@.take(i + 1);
                assert(upto.drop_last() =~= records@.take(i as int));
                assert(upto.last() == records@[i as int]);
                assert(voter_views(rows@) =~= voter_views(before).insert(voter.name@, voter@));
            }
            i = i + 1;
        }
        assert(records@.take(records.len() as int) =~= records@);
        VoterTable { rows }
    }

    /// Number of cached voters.
    pub fn len(&self) -> (n: usize)
        ensures
            n == self.names().len(),
            n == self@.dom().len(),
            self@.dom().finite(),
    {
        proof {
            use_type_invariant(&self.rows);
            self.rows.lemma_rows();
            assert(self@.dom() =~= self.rows@.dom());
        }
        self.rows.len()
    }

    /// The voter in row `i`.
    pub fn voter_at(&self, i: usize) -> (voter: &Voter)
        requires
            i < self.names().len(),
        ensures
            voter.name@ == self.names()[i as int],
            self@.contains_key(voter.name@),
            self@[voter.name@] == voter@,
    {
        proof {
            use_type_invariant(self);
            use_type_invariant(&self.rows);
            self.rows.lemma_rows();
            assert(self.rows@.contains_key(self.rows.keys()[i as int]));
        }
        self.rows.value_at(i)
    }

    /// The cached voters, one record each, in row order.
    pub fn to_records(&self) -> (list: Vec<Voter>)
        ensures
            index_voters(list@) == self@,
            list.len() == self@.dom().len(),
    {
        proof {
            self.lemma_names();
            lemma_entries_upto_ends(self.names(), self@);
        }
        let n = self.len();
        let mut list: Vec<Voter> = Vec::new();
        let mut i: usize = 0;
        while i < n
            invariant
                i <= n,
                n == self.names().len(),
                n == self@.dom().len(),
                list.len() == i,
                index_voters(list@) == entries_upto(self.names(), self@, i as int),
            decreases n - i,
        {
            let ghost before = list@;
            list.push(self.voter_at(i).clone());
            proof {
                assert(list@.drop_last() =~= before);
                lemma_entries_upto_step(self.names(), self@, i as int);
            }
            i = i + 1;
        }
        list
    }

    /// Whether a voter of this name is cached.
    pub fn contains(&self, name: &String) -> (present: bool)
        ensures
            present == self@.contains_key(name@),
    {
        self.rows.contains_key(name)
    }

    /// The cached voter of this name, if any.
    pub fn get(&self, name: &String) -> (found: Option<&Voter>)
        ensures
            match found {
                Some(voter) => self@.contains_key(name@) && self@[name@] == voter@ && voter.name@
                    == name@,
                None => !self@.contains_key(name@),
            },
    {
        proof {
            use_type_invariant(self);
        }
        let found = self.rows.get(name);
        proof {
            if found is Some {
                assert(self.rows@.contains_key(name@));
            }
        }
        found
    }
}

/// The admins of `records` by id. Of two records with one id the later one
/// stays.
pub open spec fn index_admins(records: Seq<Admin>) -> Map<Seq<char>, AdminView>
    decreases records.len(),
{
    if records.len() == 0 {
        Map::empty()
    } else {
        index_admins(records.drop_last()).insert(records.last().admin_id@, records.last()@)
    }
}

/// The views of the admins in `rows`.
pub open spec fn admin_views(rows: Map<Seq<char>, Admin>) -> Map<Seq<char>, AdminView> {
    Map::new(|id: Seq<char>| rows.contains_key(id), |id: Seq<char>| rows[id]@)
}

/// `admin` with `token` as its session token.
pub open spec fn with_session(admin: AdminView, token: Seq<char>) -> AdminView {
    AdminView {
        admin_id: admin.admin_id,
        admin_password: admin.admin_password,
        admin_session_token: Some(token),
    }
}

/// Cached admins, found by id.
pub struct AdminTable {
    rows: StrMap<Admin>,
}

impl View for AdminTable {
    type V = Map<Seq<char>, AdminView>;

    closed spec fn view(&self) -> Map<Seq<char>, AdminView> {
        admin_views(self.rows@)
    }
}

impl AdminTable {
    /// Every admin stands under its own id.
    #[verifier::type_invariant]
    closed spec fn wf(&self) -> bool {
        forall|id: Seq<char>| #[trigger]
            self.rows@.contains_key(id) ==> self.rows@[id].admin_id@ == id
    }

    /// Ids of the cached admins, in row order.
    pub closed spec fn ids(&self) -> Seq<Seq<char>> {
        self.rows.keys()
    }

    /// The cached ids are the ids in the rows.
    pub proof fn lemma_ids(&self)
        ensures
            forall|id: Seq<char>| self@.contains_key(id) <==> self.ids().contains(id),
    {
    }

    /// A table that knows nobody.
    pub fn new() -> (table: AdminTable)
        ensures
            table@ == Map::<Seq<char>, AdminView>::empty(),
    {
        let table = AdminTable { rows: StrMap::new() };
        assert(table@ =~= Map::<Seq<char>, AdminView>::empty());
        table
    }

    /// The table of `records`.
    pub fn from_records(records: &Vec<Admin>) -> (table: AdminTable)
        ensures
            table@ == index_admins(records@),
    {
        let mut rows: StrMap<Admin> = StrMap::new();
        let mut i: usize = 0;
        assert(records@.take(0) =~= Seq::<Admin>::empty());
        assert(admin_views(rows@) =~= index_admins(records@.take(0)));
        while i < records.len()
            invariant
                i <= records.len(),
                admin_views(rows@) == index_admins(records@.take(i as int)),
                forall|id: Seq<char>| #[trigger]
                    rows@.contains_key(id) ==> rows@[id].admin_id@ == id,
            decreases records.len() - i,
        {
            let admin = records[i].clone();
            let id = admin.admin_id.clone();
            let ghost before = rows@;
            rows.insert(id, admin);
            proof {
                let upto = records@.take(i + 1);
                assert(upto.drop_last() =~= records@.take(i as int));
                assert(upto.last() == records@[i as int]);
                assert(admin_views(rows@) =~= admin_views(before).insert(
                    admin.admin_id@,
                    admin@,
                ));
            }
            i = i + 1;
        }
        assert(records@.take(records.len() as int) =~= records@);
        AdminTable { rows }
    }

    /// Number of cached admins.
    pub fn len(&self) -> (n: usize)
        ensures
            n == self.ids().len(),
            n == self@.dom().len(),
            self@.dom().finite(),
    {
        proof {
            use_type_invariant(&self.rows);
            self.rows.lemma_rows();
            assert(self@.dom() =~= self.rows@.dom());
        }
        self.rows.len()
    }

    /// The admin in row `i`.
    pub fn admin_at(&self, i: usize) -> (admin: &Admin)
        requires
            i < self.ids().len(),
        ensures
            admin.admin_id@ == self.ids()[i as int],
            self@.contains_key(admin.admin_id@),
            self@[admin.admin_id@] == admin@,
    {
        proof {
            use_type_invariant(self);
            use_type_invariant(&self.rows);
            self.rows.lemma_rows();
            assert(self.rows@.contains_key(self.rows.keys()[i as int]));
        }
        self.rows.value_at(i)
    }

    /// The cached admins, one record each, in row order.
    pub fn to_records(&self) -> (list: Vec<Admin>)
        ensures
            index_admins(list@) == self@,
            list.len() == self@.dom().len(),
    {
        proof {
            self.lemma_ids();
            lemma_entries_upto_ends(self.ids(), self@);
        }
        let n = self.len();
        let mut list: Vec<Admin> = Vec::new();
        let mut i: usize = 0;
        while i < n
            invariant
                i <= n,
                n == self.ids().len(),
                n == self@.dom().len(),
                list.len() == i,
                index_admins(list@) == entries_upto(self.ids(), self@, i as int),
            decreases n - i,
        {
            let ghost before = list@;
            list.push(self.admin_at(i).clone());
            proof {
                assert(list@.drop_last() =~= before);
                lemma_entries_upto_step(self.ids(), self@, i as int);
            }
            i = i + 1;
        }
        list
    }

    /// The cached admin of this id, if any.
    pub fn get(&self, id: &String) -> (found: Option<&Admin>)
        ensures
            match found {
                Some(admin) => self@.contains_key(id@) && self@[id@] == admin@
                    && admin.admin_id@ == id@,
                None => !self@.contains_key(id@),
            },
    {
        proof {
            use_type_invariant(self);
        }
        let found = self.rows.get(id);
        proof {
            if found is Some {
                assert(self.rows@.contains_key(id@));
            }
        }
        found
    }

    /// Gives the admin of this id a new session token. An unknown id changes
    /// nothing. Returns whether the id is known.
    pub fn set_session_token(&mut self, id: &String, token: String) -> (known: bool)
        ensures
            known == old(self)@.contains_key(id@),
            known ==> final(self)@ == old(self)@.insert(id@, with_session(old(self)@[id@], token@)),
            !known ==> final(self)@ == old(self)@,
    {
        proof {
            use_type_invariant(&*self);
        }
        let renewed = match self.get(id) {
            Some(admin) => Admin {
                admin_id: admin.admin_id.clone(),
                admin_password: admin.admin_password.clone(),
                admin_session_token: Some(token),
            },
            None => {
                return false;
            },
        };
        let ghost before = self.rows@;
        let mut rows: StrMap<Admin> = StrMap::new();
        std::mem::swap(&mut rows, &mut self.rows);
        rows.insert(id.clone(), renewed);
        self.rows = rows;
        proof {
            assert(self@ =~= admin_views(before).insert(
                id@,
                with_session(admin_views(before)[id@], token@),
            ));
        }
        true
    }
}

/// Whether `candidates` holds a candidate of this name and campus.
pub open spec fn has_candidate(candidates: Seq<Candidate>, name: Seq<char>, campus: Campus) -> bool {
    exists|i: int|
        0 <= i < candidates.len() && (#[trigger] candidates[i]).name@ == name && candidates[i].campus
            == campus
}

/// Row of the first candidate of this name and campus.
pub fn find_candidate(
    candidates: &Vec<Candidate>,
    name: &String,
    campus: Campus,
) -> (found: Option<usize>)
    ensures
        match found {
            Some(i) => i < candidates.len() && candidates[i as int].name@ == name@
                && candidates[i as int].campus == campus,
            None => !has_candidate(candidates@, name@, campus),
        },
{
    let mut i: usize = 0;
    while i < candidates.len()
        invariant
            i <= candidates.len(),
            forall|j: int|
                0 <= j < i ==> !((#[trigger] candidates[j]).name@ == name@ && candidates[j].campus
                    == campus),
        decreases candidates.len() - i,
    {
        if candidates[i].campus == campus && candidates[i].name == *name {
            return Some(i);
        }
        i = i + 1;
    }
    None
}

/// Rebuilds the voter snapshot from what was fetched. A failed fetch (`None`)
/// leaves the snapshot empty.
pub fn update_voters_data(table: &mut VoterTable, fetched: Option<Vec<Voter>>)
    ensures
        final(table)@ == match fetched {
            Some(records) => index_voters(records@),
            None => Map::<Seq<char>, VoterView>::empty(),
        },
{
    *table = get_voters_data(fetched);
}

/// The voter snapshot of what was fetched; empty where the fetch failed.
pub fn get_voters_data(fetched: Option<Vec<Voter>>) -> (table: VoterTable)
    ensures
        table@ == match fetched {
            Some(records) => index_voters(records@),
            None => Map::<Seq<char>, VoterView>::empty(),
        },
{
    match fetched {
        Some(records) => VoterTable::from_records(&records),
        None => VoterTable::new(),
    }
}

/// Rebuilds the admin snapshot from what was fetched. A failed fetch (`None`)
/// leaves the snapshot empty.
pub fn update_admin_data(table: &mut AdminTable, fetched: Option<Vec<Admin>>)
    ensures
        final(table)@ == match fetched {
            Some(records) => index_admins(records@),
            None => Map::<Seq<char>, AdminView>::empty(),
        },
{
    *table = init_admin_data(fetched);
}

/// The admin snapshot of what was fetched; empty where the fetch failed.
pub fn init_admin_data(fetched: Option<Vec<Admin>>) -> (table: AdminTable)
    ensures
        table@ == match fetched {
            Some(records) => index_admins(records@),
            None => Map::<Seq<char>, AdminView>::empty(),
        },
{
    match fetched {
        Some(records) => AdminTable::from_records(&records),
        None => AdminTable::new(),
    }
}

/// The cached admins, one record each.
pub fn get_all_admin_data(table: &AdminTable) -> (list: Vec<Admin>)
    ensures
        index_admins(list@) == table@,
        list.len() == table@.dom().len(),
{
    table.to_records()
}

/// The candidate snapshot of what was fetched, in the order fetched; empty
/// where the fetch failed.
pub fn get_candidates_data(fetched: Option<Vec<Candidate>>) -> (candidates: Vec<Candidate>)
    ensures
        candidates@ == match fetched {
            Some(records) => records@,
            None => Seq::<Candidate>::empty(),
        },
{
    match fetched {
        Some(records) => records,
        None => Vec::new(),
    }
}

} // verus!
