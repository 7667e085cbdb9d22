use vstd::prelude::*;
use tokio::sync::watch;
use tokio_util::sync::CancellationToken;

verus! {

/// `tokio_util::sync::CancellationToken`, carried through opaquely.
#[verifier::external_type_specification]
#[verifier::external_body]
pub struct ExCancellationToken(CancellationToken);

/// `tokio::sync::watch::Sender`, carried through opaquely.
#[verifier::external_type_specification]
#[verifier::external_body]
#[verifier::reject_recursive_types(T)]
pub struct ExWatchSender<T>(watch::Sender<T>);

/// `tokio::sync::watch::Receiver`, carried through opaquely.
#[verifier::external_type_specification]
#[verifier::external_body]
#[verifier::reject_recursive_types(T)]
pub struct ExWatchReceiver<T>(watch::Receiver<T>);

/// The handles that steer one running download: a token that stops its
/// tasks, and the sending side of its pause flag (`true` = paused).
pub struct DownloadControl {
    pub cancel_token: CancellationToken,
    pub pause_tx: watch::Sender<bool>,
}

/// Every running download, by id.
pub struct DownloadRegistry {
    downloads: Vec<(String, DownloadControl)>,
}

/// The map from id to control that a list of registered downloads stands
/// for (a later entry for the same id would win; there is none).
pub open spec fn entries_map(s: Seq<(String, DownloadControl)>) -> Map<Seq<char>, DownloadControl>
    decreases s.len(),
{
    if s.len() == 0 {
        Map::empty()
    } else {
        entries_map(s.drop_last()).insert(s.last().0@, s.last().1)
    }
}

/// No id is registered twice.
pub open spec fn distinct_ids(s: Seq<(String, DownloadControl)>) -> bool {
    forall|i: int, j: int| 0 <= i < j < s.len() ==> (#[trigger] s[i]).0@ != (#[trigger] s[j]).0@
}

proof fn lemma_map_domain(s: Seq<(String, DownloadControl)>, k: Seq<char>)
    ensures
        entries_map(s).dom().contains(k) <==> exists|i: int| 0 <= i < s.len() && (#[trigger] s[i]).0@ == k,
    decreases s.len(),
{
    if s.len() > 0 {
        lemma_map_domain(s.drop_last(), k);
        if exists|i: int| 0 <= i < s.len() && (#[trigger] s[i]).0@ == k {
            let i = choose|i: int| 0 <= i < s.len() && (#[trigger] s[i]).0@ == k;
            if i < s.len() - 1 {
                assert(s.drop_last()[i] == s[i]);
            }
        }
        if exists|i: int| 0 <= i < s.len() - 1 && (#[trigger] s.drop_last()[i]).0@ == k {
            let i = choose|i: int| 0 <= i < s.len() - 1 && (#[trigger] s.drop_last()[i]).0@ == k;
            assert(s[i] == s.drop_last()[i]);
        }
    }
}

proof fn lemma_map_value(s: Seq<(String, DownloadControl)>, i: int)
    requires
        distinct_ids(s),
        0 <= i < s.len(),
    ensures
        entries_map(s).dom().contains(s[i].0@),
        entries_map(s)[s[i].0@] == s[i].1,
    decreases s.len(),
{
    if i < s.len() - 1 {
        assert(s.drop_last()[i] == s[i]);
        lemma_map_value(s.drop_last(), i);
        assert(s[i].0@ != s[s.len() - 1].0@);
    }
}

proof fn lemma_map_remove(s: Seq<(String, DownloadControl)>, i: int)
    requires
        distinct_ids(s),
        0 <= i < s.len(),
    ensures
        entries_map(s.remove(i)) == entries_map(s).remove(s[i].0@),
        distinct_ids(s.remove(i)),
    decreases s.len(),
{
    let k = s[i].0@;
    if i == s.len() - 1 {
        assert(s.remove(i) =~= s.drop_last());
        lemma_map_domain(s.drop_last(), k);
        assert(!entries_map(s.drop_last()).dom().contains(k));
        assert(entries_map(s.drop_last()) =~= entries_map(s).remove(k));
    } else {
        let t = s.drop_last();
        assert(t[i] == s[i]);
        lemma_map_remove(t, i);
        assert(s.remove(i) =~= t.remove(i).push(s.last()));
        assert(s.remove(i).drop_last() =~= t.remove(i));
        assert(s.last().0@ != k);
        assert(entries_map(s.remove(i)) =~= entries_map(s).remove(k));
    }
}

proof fn lemma_map_replace(s: Seq<(String, DownloadControl)>, i: int, entry: (String, DownloadControl))
    requires
        distinct_ids(s),
        0 <= i < s.len(),
        entry.0@ == s[i].0@,
    ensures
        entries_map(s.update(i, entry)) == entries_map(s).insert(entry.0@, entry.1),
        distinct_ids(s.update(i, entry)),
    decreases s.len(),
{
    let k = entry.0@;
    if i == s.len() - 1 {
        assert(s.update(i, entry).drop_last() =~= s.drop_last());
        assert(entries_map(s.update(i, entry)) =~= entries_map(s).insert(k, entry.1));
    } else {
        let t = s.drop_last();
        assert(t[i] == s[i]);
        lemma_map_replace(t, i, entry);
        assert(s.update(i, entry).drop_last() =~= t.update(i, entry));
        assert(s.last().0@ != k);
        assert(entries_map(s.update(i, entry)) =~= entries_map(s).insert(k, entry.1));
    }
}

impl View for DownloadRegistry {
    type V = Map<Seq<char>, DownloadControl>;

    closed spec fn view(&self) -> Map<Seq<char>, DownloadControl> {
        entries_map(self.downloads@)
    }
}

impl DownloadRegistry {
    /// The registry's internal invariant: no id appears twice.
    #[verifier::type_invariant]
    spec fn wf(&self) -> bool {
        distinct_ids(self.downloads@)
    }

    /// An empty registry.
    pub fn new() -> (r: Self)
        ensures
            r@ == Map::<Seq<char>, DownloadControl>::empty(),
    {
        DownloadRegistry { downloads: Vec::new() }
    }

    fn position(&self, id: &str) -> (r: Option<usize>)
        ensures
            match r {
                Some(i) => i < self.downloads@.len() && self.downloads@[i as int].0@ == id@,
                None => !self@.dom().contains(id@),
            },
    {
        let wanted = id.to_owned();
        let n = self.downloads.len();
        let mut i: usize = 0;
        while i < n
            invariant
                n == self.downloads@.len(),
                i <= n,
                wanted@ == id@,
                forall|j: int| 0 <= j < i ==> (#[trigger] self.downloads@[j]).0@ != id@,
            decreases n - i,
        {
            if self.downloads[i].0 == wanted {
                return Some(i);
            }
            i = i + 1;
        }
        proof {
            lemma_map_domain(self.downloads@, id@);
        }
        None
    }

    /// Whether a download with this id is registered.
    pub fn contains(&self, id: &str) -> (r: bool)
        ensures
            r == self@.dom().contains(id@),
    {
        proof {
            use_type_invariant(self);
        }
        match self.position(id) {
            Some(i) => {
                proof {
                    lemma_map_value(self.downloads@, i as int);
                }
                true
            },
            None => false,
        }
    }

    /// The controls of the download with this id, if it is registered.
    pub fn get(&self, id: &str) -> (r: Option<&DownloadControl>)
        ensures
            match r {
                Some(c) => self@.dom().contains(id@) && *c == self@[id@],
                None => !self@.dom().contains(id@),
            },
    {
        proof {
            use_type_invariant(self);
        }
        match self.position(id) {
            Some(i) => {
                proof {
                    lemma_map_value(self.downloads@, i as int);
                }
                Some(&self.downloads[i].1)
            },
            None => None,
        }
    }

    /// Registers `control` under `id`, replacing any earlier controls of
    /// that id.
    pub fn insert(&mut self, id: String, control: DownloadControl)
        ensures
            final(self)@ == old(self)@.insert(id@, control),
    {
        proof {
            use_type_invariant(&*self);
        }
        let found = self.position(id.as_str());
        let mut downloads: Vec<(String, DownloadControl)> = Vec::new();
        std::mem::swap(&mut downloads, &mut self.downloads);
        let ghost before = downloads@;
        assert(before == old(self).downloads@);
        match found {
            Some(i) => {
                proof {
                    lemma_map_replace(downloads@, i as int, (id, control));
                }
                downloads.set(i, (id, control));
            },
            None => {
                proof {
                    lemma_map_domain(downloads@, id@);
                }
                downloads.push((id, control));
                assert(downloads@.drop_last() =~= before);
                assert forall|i: int, j: int| 0 <= i < j < downloads@.len() implies
                    (#[trigger] downloads@[i]).0@ != (#[trigger] downloads@[j]).0@ by {
                    if j == downloads@.len() - 1 {
                        assert(before[i] == downloads@[i]);
                    } else {
                        assert(before[i] == downloads@[i]);
                        assert(before[j] == downloads@[j]);
                    }
                }
            },
        }
        self.downloads = downloads;
    }

    /// Unregisters the download with this id and hands back its controls.
    pub fn remove(&mut self, id: &str) -> (r: Option<DownloadControl>)
        ensures
            final(self)@ == old(self)@.remove(id@),
            match r {
                Some(c) => old(self)@.dom().contains(id@) && c == old(self)@[id@],
                None => !old(self)@.dom().contains(id@),
            },
    {
        proof {
            use_type_invariant(&*self);
        }
        match self.position(id) {
            Some(i) => {
                proof {
                    lemma_map_value(self.downloads@, i as int);
                    lemma_map_remove(self.downloads@, i as int);
                }
                let mut downloads: Vec<(String, DownloadControl)> = Vec::new();
                std::mem::swap(&mut downloads, &mut self.downloads);
                let (_, control) = downloads.remove(i);
                self.downloads = downloads;
                Some(control)
            },
            None => {
                assert(old(self)@.remove(id@) =~= old(self)@);
                None
            },
        }
    }
}

} // verus!
