//! The record of installed apps, kept in order of their ids.
use vstd::prelude::*;
use crate::paths::InstallScope;
use crate::text::{chars_lt, chars_of, eq_chars, lemma_seq_lt_irreflexive, lemma_seq_lt_transitive, lemma_seq_lt_trichotomy, seq_lt};
use crate::filename::opt_seq;

verus! {

/// One installed app.
#[derive(Debug)]
pub struct InstalledApp {
    pub id: String,
    pub name: String,
    pub version: Option<String>,
    pub scope: InstallScope,
    pub install_dir: String,
    pub command_name: String,
    pub command_path: String,
    pub desktop_path: String,
    pub icon_paths: Vec<String>,
    pub source_archive: Option<String>,
    pub source_sha256: Option<String>,
}

pub ghost struct AppView {
    pub id: Seq<char>,
    pub name: Seq<char>,
    pub version: Option<Seq<char>>,
    pub scope: InstallScope,
    pub install_dir: Seq<char>,
    pub command_name: Seq<char>,
    pub command_path: Seq<char>,
    pub desktop_path: Seq<char>,
    pub icon_paths: Seq<Seq<char>>,
    pub source_archive: Option<Seq<char>>,
    pub source_sha256: Option<Seq<char>>,
}

impl View for InstalledApp {
    type V = AppView;

    open spec fn view(&self) -> AppView {
        AppView {
            id: self.id@,
            name: self.name@,
            version: opt_seq(self.version),
            scope: self.scope,
            install_dir: self.install_dir@,
            command_name: self.command_name@,
            command_path: self.command_path@,
            desktop_path: self.desktop_path@,
            icon_paths: self.icon_paths.deep_view(),
            source_archive: opt_seq(self.source_archive),
            source_sha256: opt_seq(self.source_sha256),
        }
    }
}

fn clone_opt(o: &Option<String>) -> (r: Option<String>)
    ensures
        opt_seq(r) == opt_seq(*o),
{
    match o {
        Some(s) => Some(s.clone()),
        None => None,
    }
}

pub fn clone_strings(v: &Vec<String>) -> (r: Vec<String>)
    ensures
        r.deep_view() == v.deep_view(),
{
    let mut r: Vec<String> = Vec::new();
    let mut i: usize = 0;
    while i < v.len()
        invariant
            i <= v.len(),
            r.len() == i,
            forall|k: int| 0 <= k < i ==> #[trigger] r@[k]@ == v@[k]@,
        decreases v.len() - i,
    {
        r.push(v[i].clone());
        i = i + 1;
    }
    assert(r.deep_view() =~= v.deep_view());
    r
}

impl InstalledApp {
    /// A copy with the same contents.
    pub fn duplicate(&self) -> (r: InstalledApp)
        ensures
            r@ == self@,
    {
        InstalledApp {
            id: self.id.clone(),
            name: self.name.clone(),
            version: clone_opt(&self.version),
            scope: self.scope,
            install_dir: self.install_dir.clone(),
            command_name: self.command_name.clone(),
            command_path: self.command_path.clone(),
            desktop_path: self.desktop_path.clone(),
            icon_paths: clone_strings(&self.icon_paths),
            source_archive: clone_opt(&self.source_archive),
            source_sha256: clone_opt(&self.source_sha256),
        }
    }
}

/// The map that a list of entries stands for.
pub open spec fn to_map(es: Seq<(Seq<char>, AppView)>) -> Map<Seq<char>, AppView>
    decreases es.len(),
{
    if es.len() == 0 {
        Map::empty()
    } else {
        to_map(es.drop_last()).insert(es.last().0, es.last().1)
    }
}

/// Keys strictly increase along the list.
pub open spec fn sorted_keys(es: Seq<(Seq<char>, AppView)>) -> bool {
    forall|i: int, j: int| 0 <= i < j < es.len() ==> seq_lt(#[trigger] es[i].0, #[trigger] es[j].0)
}

pub proof fn lemma_to_map(es: Seq<(Seq<char>, AppView)>)
    requires
        sorted_keys(es),
    ensures
        forall|k: Seq<char>|
            #[trigger] to_map(es).contains_key(k) <==> exists|i: int| 0 <= i < es.len() && es[i].0 == k,
        forall|i: int| 0 <= i < es.len() ==> #[trigger] to_map(es)[es[i].0] == es[i].1,
        to_map(es).dom().finite(),
        to_map(es).len() == es.len(),
    decreases es.len(),
{
    if es.len() > 0 {
        let p = es.drop_last();
        assert(sorted_keys(p));
        lemma_to_map(p);
        let last = es.last();
        assert forall|i: int| 0 <= i < p.len() implies p[i].0 != last.0 by {
            assert(seq_lt(es[i].0, es[es.len() - 1].0));
            lemma_seq_lt_irreflexive(last.0);
        }
        assert(!to_map(p).contains_key(last.0));
        assert forall|k: Seq<char>| #[trigger] to_map(es).contains_key(k) <==> exists|i: int|
            0 <= i < es.len() && es[i].0 == k by {
            if to_map(es).contains_key(k) && k != last.0 {
                let i = choose|i: int| 0 <= i < p.len() && p[i].0 == k;
                assert(es[i].0 == k);
            }
            if exists|i: int| 0 <= i < es.len() && es[i].0 == k {
                let i = choose|i: int| 0 <= i < es.len() && es[i].0 == k;
                if i < p.len() {
                    assert(p[i].0 == k);
                }
            }
        }
        assert forall|i: int| 0 <= i < es.len() implies #[trigger] to_map(es)[es[i].0] == es[i].1 by {
            if i < p.len() {
                assert(p[i] == es[i]);
                assert(to_map(p)[p[i].0] == p[i].1);
            }
        }
    }
}

/// The installed apps of one scope, by id.
pub struct StateDb {
    apps: Vec<(String, InstalledApp)>,
}

impl StateDb {
    /// Ids strictly increase along the entries.
    pub closed spec fn wf(self) -> bool {
        sorted_keys(self.listing())
    }

    /// The entries in increasing order of their ids.
    pub closed spec fn listing(self) -> Seq<(Seq<char>, AppView)> {
        self.apps@.map_values(|e: (String, InstalledApp)| (e.0@, e.1@))
    }
}

impl View for StateDb {
    type V = Map<Seq<char>, AppView>;

    closed spec fn view(&self) -> Map<Seq<char>, AppView> {
        to_map(self.listing())
    }
}

impl StateDb {
    /// The listing is the map in increasing order of ids.
    pub proof fn lemma_listing(&self)
        requires
            self.wf(),
        ensures
            sorted_keys(self.listing()),
            self@ == to_map(self.listing()),
            self@.dom().finite(),
            self@.len() == self.listing().len(),
            forall|k: Seq<char>|
                #[trigger] self@.contains_key(k) <==> exists|i: int|
                    0 <= i < self.listing().len() && self.listing()[i].0 == k,
            forall|i: int|
                0 <= i < self.listing().len() ==> #[trigger] self@[self.listing()[i].0]
                    == self.listing()[i].1,
    {
        lemma_to_map(self.listing());
    }

    pub fn new() -> (r: StateDb)
        ensures
            r.wf(),
            r@ == Map::<Seq<char>, AppView>::empty(),
            r.listing().len() == 0,
    {
        let r = StateDb { apps: Vec::new() };
        assert(r.listing() =~= Seq::<(Seq<char>, AppView)>::empty());
        r
    }

    /// Position of `key`: the first entry whose id is not below it.
    fn position(&self, key: &Vec<char>) -> (r: (usize, bool))
        requires
            self.wf(),
        ensures
            r.0 <= self.listing().len(),
            forall|i: int| 0 <= i < r.0 ==> seq_lt(#[trigger] self.listing()[i].0, key@),
            r.0 < self.listing().len() ==> !seq_lt(self.listing()[r.0 as int].0, key@),
            r.1 == (r.0 < self.listing().len() && self.listing()[r.0 as int].0 == key@),
    {
        let mut i: usize = 0;
        while i < self.apps.len()
            invariant
                i <= self.apps.len(),
                forall|k: int| 0 <= k < i ==> seq_lt(#[trigger] self.listing()[k].0, key@),
            decreases self.apps.len() - i,
        {
            let k = chars_of(self.apps[i].0.as_str());
            assert(self.listing()[i as int].0 == k@);
            if !chars_lt(&k, key) {
                let same = eq_chars(&k, key);
                return (i, same);
            }
            i = i + 1;
        }
        (i, false)
    }

    /// The app recorded under `key`.
    pub fn get(&self, key: &str) -> (r: Option<&InstalledApp>)
        requires
            self.wf(),
        ensures
            match r {
                Some(a) => self@.contains_key(key@) && self@[key@] == a@,
                None => !self@.contains_key(key@),
            },
    {
        proof {
            self.lemma_listing();
        }
        let k = chars_of(key);
        let (pos, found) = self.position(&k);
        if found {
            assert(self.listing()[pos as int].1 == self.apps@[pos as int].1@);
            Some(&self.apps[pos].1)
        } else {
            proof {
                assert forall|i: int| 0 <= i < self.listing().len() implies self.listing()[i].0
                    != key@ by {
                    if i < pos {
                        lemma_seq_lt_irreflexive(key@);
                    } else if i > pos {
                        assert(seq_lt(self.listing()[pos as int].0, self.listing()[i].0));
                        lemma_seq_lt_trichotomy(self.listing()[pos as int].0, key@);
                        if self.listing()[i].0 == key@ {
                            lemma_seq_lt_trichotomy(self.listing()[pos as int].0, key@);
                        }
                    }
                }
            }
            None
        }
    }

    /// Records `app` under `key`, replacing what was recorded there; returns the
    /// app that was replaced.
    pub fn insert(&mut self, key: String, app: InstalledApp) -> (r: Option<InstalledApp>)
        requires
            old(self).wf(),
        ensures
            final(self).wf(),
            final(self)@ == old(self)@.insert(key@, app@),
            match r {
                Some(a) => old(self)@.contains_key(key@) && old(self)@[key@] == a@,
                None => !old(self)@.contains_key(key@),
            },
    {
        proof {
            self.lemma_listing();
        }
        let k = chars_of(key.as_str());
        let (pos, found) = self.position(&k);
        let ghost old_l = self.listing();
        let ghost entry = (key@, app@);
        let mut apps: Vec<(String, InstalledApp)> = Vec::new();
        std::mem::swap(&mut apps, &mut self.apps);
        let ghost old_apps = apps@;
        assert(old_l == old_apps.map_values(|e: (String, InstalledApp)| (e.0@, e.1@)));
        if found {
            let (_, prev) = apps.remove(pos);
            apps.insert(pos, (key, app));
            let ghost new_l = apps@.map_values(|e: (String, InstalledApp)| (e.0@, e.1@));
            proof {
                assert(new_l =~= old_l.update(pos as int, entry));
                assert(sorted_keys(new_l)) by {
                    assert forall|i: int, j: int| 0 <= i < j < new_l.len() implies seq_lt(
                        #[trigger] new_l[i].0,
                        #[trigger] new_l[j].0,
                    ) by {
                        assert(old_l[pos as int].0 == key@);
                        if i != pos && j != pos {
                            assert(seq_lt(old_l[i].0, old_l[j].0));
                        } else if i == pos {
                            assert(seq_lt(old_l[i].0, old_l[j].0));
                        } else {
                            assert(seq_lt(old_l[i].0, old_l[j].0));
                        }
                    }
                }
                lemma_to_map(new_l);
                lemma_to_map(old_l);
                assert(to_map(new_l) =~= to_map(old_l).insert(key@, app@)) by {
                    assert forall|kk: Seq<char>| #[trigger] to_map(new_l).contains_key(kk)
                        == to_map(old_l).insert(key@, app@).contains_key(kk) by {
                        if to_map(new_l).contains_key(kk) {
                            let i = choose|i: int| 0 <= i < new_l.len() && new_l[i].0 == kk;
                            if i != pos {
                                assert(old_l[i].0 == kk);
                            }
                        }
                        if to_map(old_l).contains_key(kk) {
                            let i = choose|i: int| 0 <= i < old_l.len() && old_l[i].0 == kk;
                            assert(new_l[i].0 == kk);
                        }
                        if kk == key@ {
                            assert(new_l[pos as int].0 == kk);
                        }
                    }
                    assert forall|kk: Seq<char>| #[trigger] to_map(new_l).contains_key(kk)
                        implies to_map(new_l)[kk] == to_map(old_l).insert(key@, app@)[kk] by {
                        let i = choose|i: int| 0 <= i < new_l.len() && new_l[i].0 == kk;
                        assert(to_map(new_l)[new_l[i].0] == new_l[i].1);
                        if i != pos {
                            assert(old_l[i] == new_l[i]);
                            assert(to_map(old_l)[old_l[i].0] == old_l[i].1);
                        }
                    }
                }
                assert(to_map(old_l)[old_l[pos as int].0] == old_l[pos as int].1);
            }
            self.apps = apps;
            Some(prev)
        } else {
            apps.insert(pos, (key, app));
            let ghost new_l = apps@.map_values(|e: (String, InstalledApp)| (e.0@, e.1@));
            proof {
                assert(new_l =~= old_l.insert(pos as int, entry));
                assert forall|i: int| 0 <= i < old_l.len() implies old_l[i].0 != key@ by {
                    if i >= pos {
                        if i > pos {
                            assert(seq_lt(old_l[pos as int].0, old_l[i].0));
                        }
                        lemma_seq_lt_trichotomy(old_l[pos as int].0, key@);
                        if old_l[i].0 == key@ && i > pos {
                            lemma_seq_lt_trichotomy(old_l[pos as int].0, key@);
                        }
                    } else {
                        lemma_seq_lt_irreflexive(key@);
                    }
                }
                assert(sorted_keys(new_l)) by {
                    assert forall|i: int, j: int| 0 <= i < j < new_l.len() implies seq_lt(
                        #[trigger] new_l[i].0,
                        #[trigger] new_l[j].0,
                    ) by {
                        if j < pos {
                            assert(seq_lt(old_l[i].0, old_l[j].0));
                        } else if j == pos {
                            assert(seq_lt(old_l[i].0, key@));
                        } else if i == pos {
                            assert(new_l[j] == old_l[j - 1]);
                            if j - 1 == pos {
                                lemma_seq_lt_trichotomy(old_l[pos as int].0, key@);
                            } else {
                                assert(seq_lt(old_l[pos as int].0, old_l[j - 1].0));
                                lemma_seq_lt_trichotomy(old_l[pos as int].0, key@);
                                if seq_lt(key@, old_l[pos as int].0) {
                                    lemma_seq_lt_transitive(
                                        key@,
                                        old_l[pos as int].0,
                                        old_l[j - 1].0,
                                    );
                                }
                            }
                        } else if i < pos {
                            assert(new_l[j] == old_l[j - 1]);
                            assert(seq_lt(old_l[i].0, old_l[j - 1].0));
                        } else {
                            assert(new_l[i] == old_l[i - 1]);
                            assert(new_l[j] == old_l[j - 1]);
                            assert(seq_lt(old_l[i - 1].0, old_l[j - 1].0));
                        }
                    }
                }
                lemma_to_map(new_l);
                lemma_to_map(old_l);
                assert(to_map(new_l) =~= to_map(old_l).insert(key@, app@)) by {
                    assert forall|kk: Seq<char>| #[trigger] to_map(new_l).contains_key(kk)
                        == to_map(old_l).insert(key@, app@).contains_key(kk) by {
                        if to_map(new_l).contains_key(kk) {
                            let i = choose|i: int| 0 <= i < new_l.len() && new_l[i].0 == kk;
                            if i < pos {
                                assert(old_l[i].0 == kk);
                            } else if i > pos {
                                assert(old_l[i - 1].0 == kk);
                            }
                        }
                        if to_map(old_l).contains_key(kk) {
                            let i = choose|i: int| 0 <= i < old_l.len() && old_l[i].0 == kk;
                            if i < pos {
                                assert(new_l[i].0 == kk);
                            } else {
                                assert(new_l[i + 1].0 == kk);
                            }
                        }
                        if kk == key@ {
                            assert(new_l[pos as int].0 == kk);
                        }
                    }
                    assert forall|kk: Seq<char>| #[trigger] to_map(new_l).contains_key(kk)
                        implies to_map(new_l)[kk] == to_map(old_l).insert(key@, app@)[kk] by {
                        let i = choose|i: int| 0 <= i < new_l.len() && new_l[i].0 == kk;
                        assert(to_map(new_l)[new_l[i].0] == new_l[i].1);
                        if i < pos {
                            assert(old_l[i] == new_l[i]);
                            assert(to_map(old_l)[old_l[i].0] == old_l[i].1);
                        } else if i > pos {
                            assert(old_l[i - 1] == new_l[i]);
                            assert(to_map(old_l)[old_l[i - 1].0] == old_l[i - 1].1);
                        }
                    }
                }
            }
            self.apps = apps;
            None
        }
    }

    /// Removes the app recorded under `key` and returns it.
    pub fn remove(&mut self, key: &str) -> (r: Option<InstalledApp>)
        requires
            old(self).wf(),
        ensures
            final(self).wf(),
            final(self)@ == old(self)@.remove(key@),
            match r {
                Some(a) => old(self)@.contains_key(key@) && old(self)@[key@] == a@,
                None => !old(self)@.contains_key(key@),
            },
    {
        proof {
            self.lemma_listing();
        }
        let k = chars_of(key);
        let (pos, found) = self.position(&k);
        let ghost old_l = self.listing();
        proof {
            lemma_to_map(old_l);
        }
        if !found {
            proof {
                assert forall|i: int| 0 <= i < old_l.len() implies old_l[i].0 != key@ by {
                    if i < pos {
                        lemma_seq_lt_irreflexive(key@);
                    } else if i > pos {
                        assert(seq_lt(old_l[pos as int].0, old_l[i].0));
                        lemma_seq_lt_trichotomy(old_l[pos as int].0, key@);
                        if old_l[i].0 == key@ {
                            lemma_seq_lt_trichotomy(old_l[pos as int].0, key@);
                        }
                    }
                }
                assert(to_map(old_l).remove(key@) =~= to_map(old_l));
            }
            return None;
        }
        let mut apps: Vec<(String, InstalledApp)> = Vec::new();
        std::mem::swap(&mut apps, &mut self.apps);
        let (_, prev) = apps.remove(pos);
        let ghost new_l = apps@.map_values(|e: (String, InstalledApp)| (e.0@, e.1@));
        proof {
            assert(new_l =~= old_l.remove(pos as int));
            assert(sorted_keys(new_l)) by {
                assert forall|i: int, j: int| 0 <= i < j < new_l.len() implies seq_lt(
                    #[trigger] new_l[i].0,
                    #[trigger] new_l[j].0,
                ) by {
                    let oi = if i < pos {
                        i
                    } else {
                        i + 1
                    };
                    let oj = if j < pos {
                        j
                    } else {
                        j + 1
                    };
                    assert(new_l[i] == old_l[oi]);
                    assert(new_l[j] == old_l[oj]);
                    assert(seq_lt(old_l[oi].0, old_l[oj].0));
                }
            }
            lemma_to_map(new_l);
            assert forall|i: int| 0 <= i < old_l.len() && i != pos implies old_l[i].0 != key@ by {
                if i < pos {
                    assert(seq_lt(old_l[i].0, old_l[pos as int].0));
                } else {
                    assert(seq_lt(old_l[pos as int].0, old_l[i].0));
                }
                lemma_seq_lt_irreflexive(key@);
            }
            assert(to_map(new_l) =~= to_map(old_l).remove(key@)) by {
                assert forall|kk: Seq<char>| #[trigger] to_map(new_l).contains_key(kk)
                    == to_map(old_l).remove(key@).contains_key(kk) by {
                    if to_map(new_l).contains_key(kk) {
                        let i = choose|i: int| 0 <= i < new_l.len() && new_l[i].0 == kk;
                        let oi = if i < pos {
                            i
                        } else {
                            i + 1
                        };
                        assert(old_l[oi].0 == kk);
                    }
                    if to_map(old_l).contains_key(kk) && kk != key@ {
                        let i = choose|i: int| 0 <= i < old_l.len() && old_l[i].0 == kk;
                        if i < pos {
                            assert(new_l[i].0 == kk);
                        } else {
                            assert(new_l[i - 1].0 == kk);
                        }
                    }
                }
                assert forall|kk: Seq<char>| #[trigger] to_map(new_l).contains_key(kk) implies to_map(
                    new_l,
                )[kk] == to_map(old_l).remove(key@)[kk] by {
                    let i = choose|i: int| 0 <= i < new_l.len() && new_l[i].0 == kk;
                    let oi = if i < pos {
                        i
                    } else {
                        i + 1
                    };
                    assert(to_map(new_l)[new_l[i].0] == new_l[i].1);
                    assert(to_map(old_l)[old_l[oi].0] == old_l[oi].1);
                }
            }
            assert(to_map(old_l)[old_l[pos as int].0] == old_l[pos as int].1);
        }
        self.apps = apps;
        Some(prev)
    }

    /// The recorded apps in increasing order of their ids.
    pub fn values(&self) -> (r: Vec<InstalledApp>)
        ensures
            r@.map_values(|a: InstalledApp| a@) == self.listing().map_values(
                |e: (Seq<char>, AppView)| e.1,
            ),
    {
        let mut r: Vec<InstalledApp> = Vec::new();
        let mut i: usize = 0;
        while i < self.apps.len()
            invariant
                i <= self.apps.len(),
                r.len() == i,
                forall|k: int| 0 <= k < i ==> #[trigger] r@[k]@ == self.listing()[k].1,
            decreases self.apps.len() - i,
        {
            r.push(self.apps[i].1.duplicate());
            i = i + 1;
        }
        assert(r@.map_values(|a: InstalledApp| a@) =~= self.listing().map_values(
            |e: (Seq<char>, AppView)| e.1,
        ));
        r
    }

    /// The recorded ids and apps in increasing order of the ids.
    pub fn entries(&self) -> (r: Vec<(String, InstalledApp)>)
        ensures
            r@.map_values(|e: (String, InstalledApp)| (e.0@, e.1@)) == self.listing(),
    {
        let mut r: Vec<(String, InstalledApp)> = Vec::new();
        let mut i: usize = 0;
        while i < self.apps.len()
            invariant
                i <= self.apps.len(),
                r.len() == i,
                forall|k: int|
                    0 <= k < i ==> (#[trigger] r@[k]).0@ == self.listing()[k].0 && r@[k].1@
                        == self.listing()[k].1,
            decreases self.apps.len() - i,
        {
            r.push((self.apps[i].0.clone(), self.apps[i].1.duplicate()));
            i = i + 1;
        }
        assert(r@.map_values(|e: (String, InstalledApp)| (e.0@, e.1@)) =~= self.listing());
        r
    }
}

} // verus!
