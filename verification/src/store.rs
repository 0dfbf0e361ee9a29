//! The per-peer content catalog: what this peer owns and offers over the
//! transfer protocol, as a map from content identifier to storage location
//! and descriptive metadata, plus the directory where delivered content is
//! saved.

use vstd::prelude::*;

use crate::seqs::{lemma_filter_distinct_keys, lemma_filter_take_all, lemma_filter_take_step};

verus! {

/// Descriptive metadata for one advertised piece of content.
#[derive(Debug)]
pub struct ImageMetadata {
    pub image_id: String,
    pub image_name: String,
    pub owner: String,
    pub description: Option<String>,
    pub file_size_kb: u64,
}

impl Clone for ImageMetadata {
    fn clone(&self) -> (r: Self)
        ensures
            r == *self,
    {
        ImageMetadata {
            image_id: self.image_id.clone(),
            image_name: self.image_name.clone(),
            owner: self.owner.clone(),
            description: match &self.description {
                Some(d) => Some(d.clone()),
                None => None,
            },
            file_size_kb: self.file_size_kb,
        }
    }
}

/// One catalog record: identifier, where the bytes live, and metadata.
#[derive(Debug)]
pub struct CatalogEntry {
    pub image_id: String,
    pub file_path: String,
    pub metadata: ImageMetadata,
}

impl Clone for CatalogEntry {
    fn clone(&self) -> (r: Self)
        ensures
            r == *self,
    {
        CatalogEntry {
            image_id: self.image_id.clone(),
            file_path: self.file_path.clone(),
            metadata: self.metadata.clone(),
        }
    }
}

/// True if some entry of `s` carries the identifier `id`.
pub open spec fn catalog_has(s: Seq<CatalogEntry>, id: Seq<char>) -> bool {
    exists|i: int| 0 <= i < s.len() && s[i].image_id@ == id
}

/// The index of the entry with identifier `id` (meaningful under unique
/// identifiers).
pub open spec fn catalog_idx(s: Seq<CatalogEntry>, id: Seq<char>) -> int {
    choose|i: int| 0 <= i < s.len() && s[i].image_id@ == id
}

/// No content identifier occurs twice.
pub open spec fn catalog_unique(s: Seq<CatalogEntry>) -> bool {
    forall|i: int, j: int| 0 <= i < j < s.len() ==> s[i].image_id@ != s[j].image_id@
}

/// The catalog as a map from content identifier to record.
pub open spec fn catalog_map_of(s: Seq<CatalogEntry>) -> Map<Seq<char>, CatalogEntry> {
    Map::new(|id: Seq<char>| catalog_has(s, id), |id: Seq<char>| s[catalog_idx(s, id)])
}

/// With unique identifiers, any index holding `id` is the index that
/// `catalog_idx` selects.
pub proof fn lemma_catalog_at(s: Seq<CatalogEntry>, j: int)
    requires
        catalog_unique(s),
        0 <= j < s.len(),
    ensures
        catalog_idx(s, s[j].image_id@) == j,
        catalog_map_of(s)[s[j].image_id@] == s[j],
{
    let id = s[j].image_id@;
    assert(catalog_has(s, id));
    let i = catalog_idx(s, id);
    if i < j {
        assert(s[i].image_id@ != s[j].image_id@);
    } else if j < i {
        assert(s[j].image_id@ != s[i].image_id@);
    }
}

/// Replacing the entry at an index, keeping its identifier, is a map insert.
pub proof fn lemma_catalog_update(s0: Seq<CatalogEntry>, i: int, e: CatalogEntry)
    requires
        catalog_unique(s0),
        0 <= i < s0.len(),
        e.image_id@ == s0[i].image_id@,
    ensures
        catalog_unique(s0.update(i, e)),
        catalog_map_of(s0.update(i, e)) == catalog_map_of(s0).insert(e.image_id@, e),
{
    let s1 = s0.update(i, e);
    assert forall|p: int, q: int| 0 <= p < q < s1.len() implies s1[p].image_id@
        != s1[q].image_id@ by {
        assert(s0[p].image_id@ != s0[q].image_id@);
    }
    assert forall|k: Seq<char>| catalog_has(s1, k) implies catalog_has(s0, k) by {
        let w = choose|w: int| 0 <= w < s1.len() && s1[w].image_id@ == k;
        assert(s0[w].image_id@ == k);
    }
    assert forall|k: Seq<char>| catalog_has(s0, k) implies catalog_has(s1, k) by {
        let w = choose|w: int| 0 <= w < s0.len() && s0[w].image_id@ == k;
        assert(s1[w].image_id@ == k);
    }
    assert forall|k: Seq<char>| catalog_has(s1, k) implies s1[catalog_idx(s1, k)] == catalog_map_of(
        s0,
    ).insert(e.image_id@, e)[k] by {
        let w = catalog_idx(s1, k);
        assert(0 <= w < s1.len() && s1[w].image_id@ == k);
        lemma_catalog_at(s0, w);
        if w == i {
            assert(k == e.image_id@);
        } else {
            assert(s0[w] == s1[w]);
        }
    }
    assert(catalog_map_of(s1) =~= catalog_map_of(s0).insert(e.image_id@, e));
}

/// Appending an entry under a fresh identifier is a map insert.
pub proof fn lemma_catalog_push(s0: Seq<CatalogEntry>, e: CatalogEntry)
    requires
        catalog_unique(s0),
        !catalog_has(s0, e.image_id@),
    ensures
        catalog_unique(s0.push(e)),
        catalog_map_of(s0.push(e)) == catalog_map_of(s0).insert(e.image_id@, e),
{
    let s1 = s0.push(e);
    assert forall|p: int, q: int| 0 <= p < q < s1.len() implies s1[p].image_id@
        != s1[q].image_id@ by {
        if q < s0.len() {
            assert(s0[p].image_id@ != s0[q].image_id@);
        } else {
            assert(s1[q].image_id@ == e.image_id@);
            assert(s0[p].image_id@ != e.image_id@);
        }
    }
    assert(catalog_has(s1, e.image_id@)) by {
        assert(s1[s0.len() as int].image_id@ == e.image_id@);
    }
    assert forall|k: Seq<char>| catalog_has(s1, k) && k != e.image_id@ implies catalog_has(
        s0,
        k,
    ) by {
        let w = choose|w: int| 0 <= w < s1.len() && s1[w].image_id@ == k;
        assert(w < s0.len());
        assert(s0[w].image_id@ == k);
    }
    assert forall|k: Seq<char>| catalog_has(s0, k) implies catalog_has(s1, k) by {
        let w = choose|w: int| 0 <= w < s0.len() && s0[w].image_id@ == k;
        assert(s1[w].image_id@ == k);
    }
    assert forall|k: Seq<char>| catalog_has(s1, k) implies s1[catalog_idx(s1, k)] == catalog_map_of(
        s0,
    ).insert(e.image_id@, e)[k] by {
        let w = catalog_idx(s1, k);
        assert(0 <= w < s1.len() && s1[w].image_id@ == k);
        if w == s0.len() {
            assert(k == e.image_id@);
        } else {
            lemma_catalog_at(s0, w);
        }
    }
    assert(catalog_map_of(s1) =~= catalog_map_of(s0).insert(e.image_id@, e));
}

/// What this peer owns: content identifier to (storage location, metadata),
/// plus the directory where delivered content is saved.
pub struct PeerImageStore {
    pub images: Vec<CatalogEntry>,
    pub received_images_dir: Option<String>,
}

impl PeerImageStore {
    /// No content identifier occurs twice.
    pub open spec fn wf(self) -> bool {
        catalog_unique(self.images@)
    }

    /// The catalog as a map from content identifier to record.
    pub open spec fn catalog_map(self) -> Map<Seq<char>, CatalogEntry> {
        catalog_map_of(self.images@)
    }

    /// An empty catalog with no receive directory configured.
    pub fn new() -> (r: Self)
        ensures
            r.wf(),
            r.catalog_map() == Map::<Seq<char>, CatalogEntry>::empty(),
            r.received_images_dir is None,
    {
        let r = PeerImageStore { images: Vec::new(), received_images_dir: None };
        proof {
            assert(r.catalog_map() =~= Map::<Seq<char>, CatalogEntry>::empty());
        }
        r
    }

    /// Configure where delivered content is saved.
    pub fn set_received_images_dir(&mut self, dir: String)
        ensures
            final(self).received_images_dir == Some(dir),
            final(self).images == old(self).images,
    {
        self.received_images_dir = Some(dir);
    }

    /// Where delivered content is saved, if configured.
    pub fn get_received_images_dir(&self) -> (r: Option<&String>)
        ensures
            match r {
                Some(d) => self.received_images_dir == Some(*d),
                None => self.received_images_dir is None,
            },
    {
        self.received_images_dir.as_ref()
    }

    /// The index of the entry with identifier `id`, searched linearly.
    fn find_catalog_idx(&self, id: &String) -> (r: Option<usize>)
        ensures
            match r {
                Some(i) => i < self.images@.len() && self.images@[i as int].image_id@ == id@,
                None => !catalog_has(self.images@, id@),
            },
    {
        let n = self.images.len();
        let mut i: usize = 0;
        while i < n
            invariant
                n == self.images@.len(),
                i <= n,
                forall|j: int| 0 <= j < i ==> self.images@[j].image_id@ != id@,
            decreases n - i,
        {
            if self.images[i].image_id == *id {
                return Some(i);
            }
            i = i + 1;
        }
        None
    }

    /// Record content under `image_id`, replacing any record that already
    /// carries that identifier.
    pub fn add_image(&mut self, image_id: String, file_path: String, metadata: ImageMetadata)
        requires
            old(self).wf(),
        ensures
            final(self).wf(),
            final(self).received_images_dir == old(self).received_images_dir,
            final(self).catalog_map() == old(self).catalog_map().insert(
                image_id@,
                (CatalogEntry { image_id, file_path, metadata }),
            ),
    {
        let idx = self.find_catalog_idx(&image_id);
        let entry = CatalogEntry { image_id, file_path, metadata };
        let ghost s0 = self.images@;
        match idx {
            Some(i) => {
                proof {
                    lemma_catalog_update(s0, i as int, entry);
                }
                self.images.set(i, entry);
            },
            None => {
                proof {
                    lemma_catalog_push(s0, entry);
                }
                self.images.push(entry);
            },
        }
    }

    /// Where the content with identifier `image_id` is stored, if known.
    pub fn get_image_path(&self, image_id: &String) -> (r: Option<&String>)
        requires
            self.wf(),
        ensures
            match r {
                Some(p) => catalog_has(self.images@, image_id@) && *p == self.catalog_map()[
                    image_id@
                ].file_path,
                None => !catalog_has(self.images@, image_id@),
            },
    {
        match self.find_catalog_idx(image_id) {
            Some(i) => {
                proof {
                    lemma_catalog_at(self.images@, i as int);
                }
                Some(&self.images[i].file_path)
            },
            None => None,
        }
    }

    /// The metadata of everything this peer offers, in catalog order.
    pub fn get_all_metadata(&self) -> (r: Vec<ImageMetadata>)
        ensures
            r@ == self.images@.map_values(|e: CatalogEntry| e.metadata),
    {
        let ghost orig = self.images@;
        let mut r: Vec<ImageMetadata> = Vec::new();
        let n = self.images.len();
        let mut i: usize = 0;
        while i < n
            invariant
                n == self.images@.len(),
                orig == self.images@,
                i <= n,
                r@ == orig.take(i as int).map_values(|e: CatalogEntry| e.metadata),
            decreases n - i,
        {
            r.push(self.images[i].metadata.clone());
            proof {
                assert(r@ =~= orig.take(i as int + 1).map_values(|e: CatalogEntry| e.metadata));
            }
            i = i + 1;
        }
        proof {
            assert(orig.take(n as int) =~= orig);
        }
        r
    }

    /// Forget the content with identifier `image_id`, if present.
    pub fn remove_image(&mut self, image_id: &String)
        requires
            old(self).wf(),
        ensures
            final(self).wf(),
            final(self).received_images_dir == old(self).received_images_dir,
            final(self).images@ == old(self).images@.filter(
                |e: CatalogEntry| e.image_id@ != image_id@,
            ),
    {
        let ghost pred = |e: CatalogEntry| e.image_id@ != image_id@;
        let ghost orig = self.images@;
        let mut kept: Vec<CatalogEntry> = Vec::new();
        proof {
            reveal(Seq::filter);
            assert(orig.take(0).filter(pred) =~= Seq::<CatalogEntry>::empty());
        }
        let n = self.images.len();
        let mut i: usize = 0;
        while i < n
            invariant
                n == self.images@.len(),
                orig == self.images@,
                pred == (|e: CatalogEntry| e.image_id@ != image_id@),
                i <= n,
                kept@ == orig.take(i as int).filter(pred),
            decreases n - i,
        {
            let e = &self.images[i];
            proof {
                assert((e.image_id@ != image_id@) == pred(orig[i as int]));
                lemma_filter_take_step(orig, i as int, pred);
            }
            if e.image_id != *image_id {
                kept.push(self.images[i].clone());
            }
            i = i + 1;
        }
        proof {
            lemma_filter_take_all(orig, pred);
            lemma_filter_distinct_keys(orig, pred, |e: CatalogEntry| e.image_id@);
        }
        self.images = kept;
    }
}


/// Whether a file extension marks content the catalog advertises: exactly
/// "png", "jpg" or "jpeg".
pub fn is_image_extension(ext: &String) -> (r: bool)
    ensures
        r == (ext@ == "png"@ || ext@ == "jpg"@ || ext@ == "jpeg"@),
{
    *ext == String::from_str("png") || *ext == String::from_str("jpg") || *ext
        == String::from_str("jpeg")
}

} // verus!
