use vstd::prelude::*;
use crate::route::{RedirectRule, strip_prefix, strip_root, redirect_destination, strip_spec,
    stripped_spec, rules_target, rules_view};

verus! {

/// The content that the index gives for `key`: the last entry inserted under it.
pub open spec fn index_lookup(entries: Seq<(Seq<u8>, Seq<u8>)>, key: Seq<u8>) -> Option<Seq<u8>>
    decreases entries.len(),
{
    if entries.len() == 0 {
        None
    } else if entries.last().0 == key {
        Some(entries.last().1)
    } else {
        index_lookup(entries.drop_last(), key)
    }
}

/// Relative path (forward slashes) to file content, filled once by a directory scan.
pub struct OverlayIndex {
    pub entries: Vec<(Vec<u8>, Vec<u8>)>,
}

impl OverlayIndex {
    pub open spec fn view_entries(&self) -> Seq<(Seq<u8>, Seq<u8>)> {
        self.entries@.map_values(|e: (Vec<u8>, Vec<u8>)| (e.0@, e.1@))
    }

    pub fn new() -> (r: OverlayIndex)
        ensures
            r.view_entries() == Seq::<(Seq<u8>, Seq<u8>)>::empty(),
    {
        OverlayIndex { entries: Vec::new() }
    }

    /// Records `data` under `key`; a later insert of the same key wins.
    pub fn insert(&mut self, key: Vec<u8>, data: Vec<u8>)
        ensures
            final(self).view_entries() == old(self).view_entries().push((key@, data@)),
    {
        self.entries.push((key, data));
        proof {
            assert(final(self).view_entries() =~= old(self).view_entries().push((key@, data@)));
        }
    }

    /// The content recorded for `key`.
    pub fn get(&self, key: &Vec<u8>) -> (r: Option<Vec<u8>>)
        ensures
            r is None <==> index_lookup(self.view_entries(), key@) is None,
            r is Some ==> Some(r->0@) == index_lookup(self.view_entries(), key@),
    {
        let mut i: usize = self.entries.len();
        proof {
            assert(self.view_entries().subrange(0, i as int) =~= self.view_entries());
        }
        while i > 0
            invariant
                i <= self.entries@.len(),
                index_lookup(self.view_entries(), key@)
                    == index_lookup(self.view_entries().subrange(0, i as int), key@),
            decreases i,
        {
            let ghost pre = self.view_entries().subrange(0, i as int);
            proof {
                assert(pre.drop_last() =~= self.view_entries().subrange(0, i - 1));
                assert(pre.last() == (self.entries@[i - 1].0@, self.entries@[i - 1].1@));
            }
            if vec_eq(&self.entries[i - 1].0, key) {
                return Some(self.entries[i - 1].1.clone());
            }
            i = i - 1;
        }
        None
    }
}

/// Byte-wise equality of two vectors.
pub fn vec_eq(a: &Vec<u8>, b: &Vec<u8>) -> (r: bool)
    ensures
        r == (a@ == b@),
{
    if a.len() != b.len() {
        return false;
    }
    let mut i: usize = 0;
    while i < a.len()
        invariant
            a@.len() == b@.len(),
            i <= a@.len(),
            a@.subrange(0, i as int) == b@.subrange(0, i as int),
        decreases a@.len() - i,
    {
        if a[i] != b[i] {
            proof {
                assert(a@[i as int] != b@[i as int]);
            }
            return false;
        }
        i = i + 1;
        proof {
            assert(a@.subrange(0, i as int) =~= b@.subrange(0, i as int));
        }
    }
    proof {
        assert(a@ =~= a@.subrange(0, i as int));
        assert(b@ =~= b@.subrange(0, i as int));
    }
    true
}

/// The once-only overlay build: not tried yet, failed for good, or built.
pub enum OverlayState {
    Uninitialized,
    Failed,
    Ready(OverlayIndex),
}

impl OverlayState {
    /// Whether a directory scan is still owed.
    pub fn needs_scan(&self) -> (r: bool)
        ensures
            r == (self is Uninitialized),
    {
        match self {
            OverlayState::Uninitialized => true,
            _ => false,
        }
    }

    /// The state after a scan that gave `result` (`None`: no overlay). Only the
    /// first scan counts: a state that is no longer uninitialized is kept.
    pub fn finish(self, result: Option<OverlayIndex>) -> (r: OverlayState)
        ensures
            !(r is Uninitialized),
            !(self is Uninitialized) ==> r == self,
            self is Uninitialized && result is None ==> r is Failed,
            self is Uninitialized && result is Some ==> r == OverlayState::Ready(result->0),
    {
        match self {
            OverlayState::Uninitialized => match result {
                Some(idx) => OverlayState::Ready(idx),
                None => OverlayState::Failed,
            },
            other => other,
        }
    }
}

/// Once a scan has finished, no further scan is owed, and a second finished
/// scan, whatever it found, leaves the state as the first one made it.
pub proof fn lemma_scan_once(s: OverlayState, first: Option<OverlayIndex>, second: Option<OverlayIndex>)
    ensures
        ({
            let a = if s is Uninitialized {
                match first { Some(i) => OverlayState::Ready(i), None => OverlayState::Failed }
            } else { s };
            &&& !(a is Uninitialized)
            &&& (if a is Uninitialized {
                    match second { Some(i) => OverlayState::Ready(i), None => OverlayState::Failed }
                } else { a }) == a
        }),
{
}

/// A path with each backslash turned into a forward slash.
pub open spec fn normalize_spec(p: Seq<u8>) -> Seq<u8> {
    p.map_values(|c: u8| if c == 92u8 { 47u8 } else { c })
}

/// Turns backslash separators into forward slashes.
pub fn normalize_separators(p: &Vec<u8>) -> (r: Vec<u8>)
    ensures
        r@ == normalize_spec(p@),
{
    let mut out: Vec<u8> = Vec::new();
    let mut i: usize = 0;
    while i < p.len()
        invariant
            i <= p@.len(),
            out@ == normalize_spec(p@.subrange(0, i as int)),
        decreases p@.len() - i,
    {
        let c: u8 = p[i];
        out.push(if c == 92u8 { 47u8 } else { c });
        i = i + 1;
        proof {
            assert(out@ =~= normalize_spec(p@.subrange(0, i as int)));
        }
    }
    proof {
        assert(p@.subrange(0, i as int) =~= p@);
    }
    out
}

/// The index that a scan's files give: relative paths with forward slashes.
pub open spec fn scanned_entries(files: Seq<(Vec<u8>, Vec<u8>)>) -> Seq<(Seq<u8>, Seq<u8>)> {
    files.map_values(|f: (Vec<u8>, Vec<u8>)| (normalize_spec(f.0@), f.1@))
}

/// Builds the overlay index from a directory scan. `root_listed` says that the
/// root exists, is a directory and could be listed; `files` holds each
/// readable regular file under it as (path relative to the root, content).
/// Without a listed root there is no overlay.
pub fn load_custom_hbui_folder(root_listed: bool, files: Vec<(Vec<u8>, Vec<u8>)>) -> (r: Option<OverlayIndex>)
    ensures
        !root_listed ==> r is None,
        root_listed ==> r is Some && r->0.view_entries() == scanned_entries(files@),
{
    if !root_listed {
        return None;
    }
    let mut idx = OverlayIndex::new();
    let mut i: usize = 0;
    while i < files.len()
        invariant
            i <= files@.len(),
            idx.view_entries() == scanned_entries(files@.subrange(0, i as int)),
        decreases files@.len() - i,
    {
        let key = normalize_separators(&files[i].0);
        let data = files[i].1.clone();
        idx.insert(key, data);
        i = i + 1;
        proof {
            assert(idx.view_entries() =~= scanned_entries(files@.subrange(0, i as int)));
        }
    }
    proof {
        assert(files@.subrange(0, i as int) =~= files@);
    }
    Some(idx)
}

/// The overlay index, once a scan has built it.
pub fn get_custom_hbui_assets(state: &OverlayState) -> (r: Option<&OverlayIndex>)
    ensures
        state is Ready ==> r == Some(&state->Ready_0),
        !(state is Ready) ==> r is None,
{
    match state {
        OverlayState::Ready(idx) => Some(idx),
        _ => None,
    }
}

/// What `open` does with a request.
pub enum OpenPlan {
    /// Serve these overlay bytes.
    Overlay(Vec<u8>),
    /// Ask the resource pack loader for this destination path.
    Redirect(Vec<u8>),
    /// Hand the request to the native implementation unchanged.
    Passthrough,
}

/// The overlay key of a relative path: what follows the `gui/` directory.
pub open spec fn overlay_hit(rel: Seq<u8>, gui: Seq<u8>, entries: Seq<(Seq<u8>, Seq<u8>)>) -> Option<Seq<u8>> {
    match strip_spec(rel, gui) {
        Some(key) => index_lookup(entries, key),
        None => None,
    }
}

/// Decides `open`: an overlay file under `gui` wins, then the first redirect
/// rule that matches, else passthrough. `root` is the asset root prefix.
pub fn plan_open(path: &Vec<u8>, root: &Vec<u8>, gui: &Vec<u8>, overlay: &OverlayState,
    rules: &Vec<RedirectRule>) -> (r: OpenPlan)
    ensures
        ({
            let rel = stripped_spec(path@, root@);
            let hit = match overlay {
                OverlayState::Ready(idx) => overlay_hit(rel, gui@, idx.view_entries()),
                _ => None,
            };
            let target = rules_target(rel, rules_view(rules@));
            &&& hit is Some ==> r is Overlay && Some(r->Overlay_0@) == hit
            &&& hit is None && target is Some ==> r is Redirect && Some(r->Redirect_0@) == target
            &&& hit is None && target is None ==> r is Passthrough
        }),
{
    let rel = strip_root(path, root);
    match overlay {
        OverlayState::Ready(idx) => {
            match strip_prefix(&rel, gui) {
                Some(key) => match idx.get(&key) {
                    Some(data) => return OpenPlan::Overlay(data),
                    None => {},
                },
                None => {},
            }
        },
        _ => {},
    }
    match redirect_destination(&rel, rules) {
        Some(d) => OpenPlan::Redirect(d),
        None => OpenPlan::Passthrough,
    }
}

} // verus!
