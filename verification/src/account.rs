//! Accounts and the account database: accounts keyed by username, and the uid that the
//! next new account gets.
use vstd::prelude::*;
use crate::text::text_eq;

verus! {

/// A registered account.
pub struct Account {
    pub uid: u32,
    pub username: String,
    pub password_hash: String,
    pub token: String,
}

/// What an account holds, as mathematical values.
pub struct AccountView {
    pub uid: u32,
    pub username: Seq<char>,
    pub password_hash: Seq<char>,
    pub token: Seq<char>,
}

impl View for Account {
    type V = AccountView;

    open spec fn view(&self) -> AccountView {
        AccountView {
            uid: self.uid,
            username: self.username@,
            password_hash: self.password_hash@,
            token: self.token@,
        }
    }
}

impl Account {
    /// A copy of this account.
    pub fn duplicate(&self) -> (r: Account)
        ensures
            r@ == self@,
    {
        Account {
            uid: self.uid,
            username: self.username.clone(),
            password_hash: self.password_hash.clone(),
            token: self.token.clone(),
        }
    }
}

/// The database as mathematical values.
pub struct DatabaseView {
    pub next_uid: u32,
    pub accounts: Map<Seq<char>, AccountView>,
}

impl DatabaseView {
    /// No two accounts share a uid.
    pub open spec fn uids_distinct(self) -> bool {
        forall|k1: Seq<char>, k2: Seq<char>|
            #![trigger self.accounts[k1], self.accounts[k2]]
            self.accounts.contains_key(k1) && self.accounts.contains_key(k2) && k1 != k2
                ==> self.accounts[k1].uid != self.accounts[k2].uid
    }

    /// Every uid in use is below the uid that the next account gets.
    pub open spec fn uids_below_next(self) -> bool {
        forall|k: Seq<char>| #[trigger]
            self.accounts.contains_key(k) ==> self.accounts[k].uid < self.next_uid
    }

    /// Uids are unique and the next one is unused: what registration keeps.
    pub open spec fn uids_fresh(self) -> bool {
        self.uids_distinct() && self.uids_below_next()
    }

    /// Some account has this uid.
    pub open spec fn has_uid(self, uid: u32) -> bool {
        exists|k: Seq<char>| #[trigger]
            self.accounts.contains_key(k) && self.accounts[k].uid == uid
    }

    /// The account with this uid (one of them, should several share it).
    pub open spec fn account_with_uid(self, uid: u32) -> Option<AccountView> {
        if self.has_uid(uid) {
            let k = choose|k: Seq<char>| #[trigger]
                self.accounts.contains_key(k) && self.accounts[k].uid == uid;
            Some(self.accounts[k])
        } else {
            None
        }
    }
}

/// Accounts keyed by username, and the uid of the next account.
pub struct AccountDatabase {
    next_uid: u32,
    entries: Vec<(String, Account)>,
}

/// The map that a list of (key, account) entries stands for; a later entry wins.
pub open spec fn entries_map(s: Seq<(String, Account)>) -> Map<Seq<char>, AccountView>
    decreases s.len(),
{
    if s.len() == 0 {
        Map::empty()
    } else {
        entries_map(s.drop_last()).insert(s.last().0@, s.last().1@)
    }
}

/// No key occurs twice.
pub open spec fn keys_distinct(s: Seq<(String, Account)>) -> bool {
    forall|i: int, j: int|
        0 <= i < s.len() && 0 <= j < s.len() && i != j ==> #[trigger] s[i].0@ != #[trigger] s[j].0@
}

proof fn lemma_entries_map(s: Seq<(String, Account)>)
    requires
        keys_distinct(s),
    ensures
        forall|k: Seq<char>|
            #[trigger] entries_map(s).contains_key(k) <==> exists|i: int|
                0 <= i < s.len() && #[trigger] s[i].0@ == k,
        forall|i: int| 0 <= i < s.len() ==> #[trigger] entries_map(s)[s[i].0@] == s[i].1@,
    decreases s.len(),
{
    if s.len() > 0 {
        let t = s.drop_last();
        assert(keys_distinct(t)) by {
            assert forall|i: int, j: int|
                0 <= i < t.len() && 0 <= j < t.len() && i != j implies #[trigger] t[i].0@
                != #[trigger] t[j].0@ by {
                assert(t[i] == s[i] && t[j] == s[j]);
            }
        }
        lemma_entries_map(t);
        assert(entries_map(s) == entries_map(t).insert(s.last().0@, s.last().1@));
        assert forall|k: Seq<char>|
            #[trigger] entries_map(s).contains_key(k) implies exists|i: int|
                0 <= i < s.len() && #[trigger] s[i].0@ == k by {
            if k == s.last().0@ {
                assert(s[s.len() - 1].0@ == k);
            } else {
                let i = choose|i: int| 0 <= i < t.len() && #[trigger] t[i].0@ == k;
                assert(s[i] == t[i]);
            }
        }
        assert forall|k: Seq<char>|
            (exists|i: int| 0 <= i < s.len() && #[trigger] s[i].0@ == k) implies
            #[trigger] entries_map(s).contains_key(k) by {
            let i = choose|i: int| 0 <= i < s.len() && #[trigger] s[i].0@ == k;
            if i < s.len() - 1 {
                assert(t[i] == s[i]);
            }
        }
        assert forall|i: int| 0 <= i < s.len() implies #[trigger] entries_map(s)[s[i].0@]
            == s[i].1@ by {
            if i < s.len() - 1 {
                assert(t[i] == s[i]);
                assert(s[i].0@ != s[s.len() - 1].0@);
            }
        }
    }
}

impl View for AccountDatabase {
    type V = DatabaseView;

    closed spec fn view(&self) -> DatabaseView {
        DatabaseView { next_uid: self.next_uid, accounts: entries_map(self.entries@) }
    }
}

impl AccountDatabase {
    /// The database's internal consistency: each username is stored once.
    pub closed spec fn wf(&self) -> bool {
        keys_distinct(self.entries@)
    }

    /// An empty database whose first account will get `next_uid`.
    pub fn with_next_uid(next_uid: u32) -> (db: AccountDatabase)
        ensures
            db.wf(),
            db@.next_uid == next_uid,
            db@.accounts == Map::<Seq<char>, AccountView>::empty(),
            db@.uids_fresh(),
    {
        let db = AccountDatabase { next_uid, entries: Vec::new() };
        assert(db.entries@.len() == 0);
        db
    }

    /// The uid that the next new account gets.
    pub fn next_uid(&self) -> (n: u32)
        ensures
            n == self@.next_uid,
    {
        self.next_uid
    }

    /// Hands out the next uid and moves the counter on by one.
    pub fn take_next_uid(&mut self) -> (uid: u32)
        requires
            old(self)@.next_uid < u32::MAX,
        ensures
            uid == old(self)@.next_uid,
            final(self)@.next_uid == old(self)@.next_uid + 1,
            final(self)@.accounts == old(self)@.accounts,
            final(self).wf() == old(self).wf(),
    {
        let uid = self.next_uid;
        self.next_uid = self.next_uid + 1;
        uid
    }

    /// The number of accounts.
    pub fn len(&self) -> (n: usize)
        requires
            self.wf(),
        ensures
            n == self@.accounts.len(),
    {
        proof { self.lemma_len(); }
        self.entries.len()
    }

    proof fn lemma_len(&self)
        requires
            self.wf(),
        ensures
            self@.accounts.len() == self.entries@.len(),
            self@.accounts.dom().finite(),
    {
        lemma_entries_len(self.entries@);
    }

    /// The usernames in storage order; positions `0..len` list each stored username once
    /// (see `lemma_keys`).
    pub closed spec fn keys(&self) -> Seq<Seq<char>> {
        self.entries@.map_values(|e: (String, Account)| e.0@)
    }

    /// The stored usernames, in storage order, list each username of the database exactly
    /// once.
    pub proof fn lemma_keys(&self)
        requires
            self.wf(),
        ensures
            self.keys().no_duplicates(),
            self.keys().len() == self@.accounts.len(),
            forall|k: Seq<char>| #[trigger]
                self@.accounts.contains_key(k) <==> self.keys().contains(k),
    {
        self.lemma_len();
        lemma_entries_map(self.entries@);
        let s = self.entries@;
        let keys = self.keys();
        assert forall|i: int, j: int| 0 <= i < keys.len() && 0 <= j < keys.len() && i != j
            implies keys[i] != keys[j] by {
            assert(keys[i] == s[i].0@ && keys[j] == s[j].0@);
        }
        assert forall|k: Seq<char>| #[trigger]
            self@.accounts.contains_key(k) <==> keys.contains(k) by {
            if self@.accounts.contains_key(k) {
                let i = choose|i: int| 0 <= i < s.len() && #[trigger] s[i].0@ == k;
                assert(keys[i] == k);
            }
            if keys.contains(k) {
                let i = choose|i: int| 0 <= i < keys.len() && keys[i] == k;
                assert(s[i].0@ == k);
            }
        }
    }

    /// The (username, account) pair stored at position `i`.
    pub fn entry(&self, i: usize) -> (e: (&String, &Account))
        requires
            self.wf(),
            i < self@.accounts.len(),
        ensures
            e.0@ == self.keys()[i as int],
            self@.accounts.contains_key(e.0@),
            self@.accounts[e.0@] == e.1@,
    {
        proof {
            self.lemma_len();
            lemma_entries_map(self.entries@);
            assert(self.entries@[i as int].0@ == self.entries@[i as int].0@);
        }
        let pair = &self.entries[i];
        (&pair.0, &pair.1)
    }

    /// Stores `account` under `username`, replacing what was stored there.
    #[verifier::loop_isolation(false)]
    pub fn put(&mut self, username: String, account: Account)
        requires
            old(self).wf(),
        ensures
            final(self).wf(),
            final(self)@.next_uid == old(self)@.next_uid,
            final(self)@.accounts == old(self)@.accounts.insert(username@, account@),
    {
        proof { lemma_entries_map(self.entries@); }
        let n = self.entries.len();
        let mut i: usize = 0;
        while i < n
            invariant
                n == self.entries@.len(),
                i <= n,
                self.entries@ == old(self).entries@,
                self.next_uid == old(self).next_uid,
                forall|j: int| 0 <= j < i ==> #[trigger] self.entries@[j].0@ != username@,
            decreases n - i,
        {
            if text_eq(self.entries[i].0.as_str(), username.as_str()) {
                let ghost before = self.entries@;
                let ghost key = username@;
                let ghost acc = account@;
                self.entries.set(i, (username, account));
                proof {
                    let after = self.entries@;
                    assert(after == before.update(i as int, after[i as int]));
                    assert(keys_distinct(after)) by {
                        assert forall|a: int, b: int|
                            0 <= a < after.len() && 0 <= b < after.len() && a != b
                                implies #[trigger] after[a].0@ != #[trigger] after[b].0@ by {
                            if a != i && b != i {
                                assert(after[a] == before[a] && after[b] == before[b]);
                            } else if a == i {
                                assert(after[b] == before[b]);
                                assert(before[i as int].0@ == key);
                            } else {
                                assert(after[a] == before[a]);
                                assert(before[i as int].0@ == key);
                            }
                        }
                    }
                    lemma_entries_map(after);
                    lemma_entries_map(before);
                    let m = entries_map(before).insert(key, acc);
                    assert(entries_map(after) =~= m) by {
                        assert forall|k: Seq<char>| #[trigger]
                            entries_map(after).contains_key(k) <==> m.contains_key(k) by {
                            if entries_map(after).contains_key(k) {
                                let j = choose|j: int| 0 <= j < after.len() && #[trigger] after[j].0@ == k;
                                if j != i {
                                    assert(after[j] == before[j]);
                                }
                            }
                            if m.contains_key(k) && k != key {
                                let j = choose|j: int| 0 <= j < before.len() && #[trigger] before[j].0@ == k;
                                assert(j != i);
                                assert(after[j] == before[j]);
                            }
                            if k == key {
                                assert(after[i as int].0@ == k);
                            }
                        }
                        assert forall|k: Seq<char>| #[trigger]
                            entries_map(after).contains_key(k) implies entries_map(after)[k] == m[k] by {
                            let j = choose|j: int| 0 <= j < after.len() && #[trigger] after[j].0@ == k;
                            if j != i {
                                assert(after[j] == before[j]);
                            }
                        }
                    }
                }
                return;
            }
            i = i + 1;
        }
        let ghost before = self.entries@;
        let ghost key = username@;
        assert(forall|j: int| 0 <= j < before.len() ==> #[trigger] before[j].0@ != key);
        self.entries.push((username, account));
        proof {
            let after = self.entries@;
            assert(after[n as int].0@ == key);
            assert(after.drop_last() =~= before);
            assert(keys_distinct(after)) by {
                assert forall|a: int, b: int|
                    0 <= a < after.len() && 0 <= b < after.len() && a != b
                        implies #[trigger] after[a].0@ != #[trigger] after[b].0@ by {
                    if a < n && b < n {
                        assert(after[a] == before[a] && after[b] == before[b]);
                    } else if a == n {
                        assert(after[b] == before[b]);
                        assert(before[b].0@ != key);
                    } else {
                        assert(after[a] == before[a]);
                        assert(before[a].0@ != key);
                    }
                }
            }
        }
    }

    /// The account stored under `username`.
    #[verifier::loop_isolation(false)]
    pub fn find_by_username(&self, username: &str) -> (r: Option<&Account>)
        requires
            self.wf(),
        ensures
            r is None <==> !self@.accounts.contains_key(username@),
            r matches Some(a) ==> a@ == self@.accounts[username@],
    {
        proof { lemma_entries_map(self.entries@); }
        let n = self.entries.len();
        let mut i: usize = 0;
        while i < n
            invariant
                n == self.entries@.len(),
                i <= n,
                forall|j: int| 0 <= j < i ==> #[trigger] self.entries@[j].0@ != username@,
            decreases n - i,
        {
            if text_eq(self.entries[i].0.as_str(), username) {
                return Some(&self.entries[i].1);
            }
            i = i + 1;
        }
        None
    }

    /// An account with uid `uid`: the one, when uids are distinct.
    #[verifier::loop_isolation(false)]
    pub fn find_by_uid(&self, uid: u32) -> (r: Option<&Account>)
        requires
            self.wf(),
        ensures
            r matches Some(a) ==> self.uid_owner(uid) == Some(a@),
            r is None ==> self.uid_owner(uid) is None,
            r is None <==> !self@.has_uid(uid),
            r matches Some(a) ==> a.uid == uid && exists|k: Seq<char>|
                self@.accounts.contains_key(k) && #[trigger] self@.accounts[k] == a@,
            self@.uids_distinct() ==> (r matches Some(a) ==> self@.account_with_uid(uid)
                == Some(a@)),
    {
        proof { lemma_entries_map(self.entries@); }
        let n = self.entries.len();
        let mut i: usize = 0;
        while i < n
            invariant
                n == self.entries@.len(),
                i <= n,
                forall|j: int| 0 <= j < i ==> #[trigger] self.entries@[j].1.uid != uid,
            decreases n - i,
        {
            if self.entries[i].1.uid == uid {
                let a = &self.entries[i].1;
                proof {
                    assert(first_uid_at(self.entries@, uid, i as int));
                    self.lemma_first_uid_unique(uid, i as int);
                    let key = self.entries@[i as int].0@;
                    assert(self@.accounts.contains_key(key));
                    assert(self@.accounts[key] == a@);
                    assert(self@.has_uid(uid));
                }
                return Some(a);
            }
            i = i + 1;
        }
        proof {
            if self@.has_uid(uid) {
                let k = choose|k: Seq<char>| #[trigger]
                    self@.accounts.contains_key(k) && self@.accounts[k].uid == uid;
                let j = choose|j: int| 0 <= j < self.entries@.len() && #[trigger] self.entries@[j].0@ == k;
                assert(self.entries@[j].1.uid == uid);
            }
            if exists|j: int| first_uid_at(self.entries@, uid, j) {
                let j = choose|j: int| first_uid_at(self.entries@, uid, j);
                assert(self.entries@[j].1.uid == uid);
            }
        }
        None
    }

    proof fn lemma_first_uid_unique(&self, uid: u32, i: int)
        requires
            first_uid_at(self.entries@, uid, i),
        ensures
            self.uid_owner(uid) == Some(self.entries@[i].1@),
    {
        let k = choose|j: int| first_uid_at(self.entries@, uid, j);
        if k < i {
            assert(self.entries@[k].1.uid != uid);
        } else if k > i {
            assert(self.entries@[i].1.uid != uid);
        }
    }

    /// The account that a lookup by uid finds: the first stored one with that uid.
    /// Stored order is not part of the database's view; when uids are distinct this is
    /// simply the account with that uid.
    pub closed spec fn uid_owner(&self, uid: u32) -> Option<AccountView> {
        if exists|j: int| first_uid_at(self.entries@, uid, j) {
            let j = choose|j: int| first_uid_at(self.entries@, uid, j);
            Some(self.entries@[j].1@)
        } else {
            None
        }
    }

    /// What the account found by uid is, in terms of the database's view: none exactly
    /// when no account has the uid; otherwise a stored account with that uid; and when
    /// uids are distinct, the account with that uid.
    pub proof fn lemma_uid_owner(&self, uid: u32)
        requires
            self.wf(),
        ensures
            self.uid_owner(uid) is None <==> !self@.has_uid(uid),
            self.uid_owner(uid) matches Some(a) ==> a.uid == uid && exists|k: Seq<char>|
                self@.accounts.contains_key(k) && #[trigger] self@.accounts[k] == a,
            self@.uids_distinct() ==> self.uid_owner(uid) == self@.account_with_uid(uid),
    {
        lemma_entries_map(self.entries@);
        let s = self.entries@;
        if self@.has_uid(uid) {
            let k = choose|k: Seq<char>| #[trigger]
                self@.accounts.contains_key(k) && self@.accounts[k].uid == uid;
            let j = choose|j: int| 0 <= j < s.len() && #[trigger] s[j].0@ == k;
            assert(s[j].1.uid == uid);
            lemma_first_uid_exists(s, uid, j);
            let f = choose|f: int| first_uid_at(s, uid, f);
            self.lemma_first_uid_unique(uid, f);
            let kf = s[f].0@;
            assert(self@.accounts.contains_key(kf));
            assert(self@.accounts[kf] == s[f].1@);
            if self@.uids_distinct() {
                if kf != k {
                    assert(self@.accounts[kf].uid != self@.accounts[k].uid);
                }
            }
        } else {
            if exists|j: int| first_uid_at(s, uid, j) {
                let j = choose|j: int| first_uid_at(s, uid, j);
                assert(self@.accounts.contains_key(s[j].0@));
                assert(self@.accounts[s[j].0@] == s[j].1@);
            }
        }
    }
}

/// Position `i` holds the first stored account with uid `uid`.
pub open spec fn first_uid_at(s: Seq<(String, Account)>, uid: u32, i: int) -> bool {
    &&& 0 <= i < s.len()
    &&& s[i].1.uid == uid
    &&& forall|j: int| 0 <= j < i ==> #[trigger] s[j].1.uid != uid
}

proof fn lemma_first_uid_exists(s: Seq<(String, Account)>, uid: u32, i: int)
    requires
        0 <= i < s.len(),
        s[i].1.uid == uid,
    ensures
        exists|f: int| first_uid_at(s, uid, f),
    decreases i,
{
    if exists|j: int| 0 <= j < i && #[trigger] s[j].1.uid == uid {
        let j = choose|j: int| 0 <= j < i && #[trigger] s[j].1.uid == uid;
        lemma_first_uid_exists(s, uid, j);
    } else {
        assert(first_uid_at(s, uid, i));
    }
}

proof fn lemma_entries_len(s: Seq<(String, Account)>)
    requires
        keys_distinct(s),
    ensures
        entries_map(s).len() == s.len(),
        entries_map(s).dom().finite(),
    decreases s.len(),
{
    if s.len() > 0 {
        let t = s.drop_last();
        assert(keys_distinct(t)) by {
            assert forall|i: int, j: int|
                0 <= i < t.len() && 0 <= j < t.len() && i != j implies #[trigger] t[i].0@
                != #[trigger] t[j].0@ by {
                assert(t[i] == s[i] && t[j] == s[j]);
            }
        }
        lemma_entries_len(t);
        lemma_entries_map(t);
        assert(entries_map(s) == entries_map(t).insert(s.last().0@, s.last().1@));
        assert(!entries_map(t).contains_key(s.last().0@)) by {
            if entries_map(t).contains_key(s.last().0@) {
                let j = choose|j: int| 0 <= j < t.len() && #[trigger] t[j].0@ == s.last().0@;
                assert(s[j] == t[j]);
            }
        }
    } else {
        assert(entries_map(s) =~= Map::<Seq<char>, AccountView>::empty());
    }
}

impl Default for AccountDatabase {
    /// A fresh database: no accounts, and uids starting at 10000001.
    fn default() -> (db: AccountDatabase)
        ensures
            db.wf(),
            db@.next_uid == 10_000_001,
            db@.accounts == Map::<Seq<char>, AccountView>::empty(),
            db@.uids_fresh(),
    {
        AccountDatabase::with_next_uid(10_000_001)
    }
}

} // verus!
