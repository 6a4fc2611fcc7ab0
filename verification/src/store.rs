use vstd::prelude::*;

verus! {

/// Identifier of an object in the document store: the object number together
/// with its generation number. A pure lookup key, not a memory address.
#[derive(Clone, Copy, Debug, PartialEq, Eq, Structural, Hash)]
pub struct ObjId {
    pub num: u32,
    pub gen: u16,
}

/// A value stored under a key of a dictionary, reduced to what outline
/// traversal reads: a reference to another object, a text string's raw
/// bytes, or anything else.
#[derive(Debug)]
pub enum PdfValue {
    Ref(ObjId),
    Text(Vec<u8>),
    Other,
}

/// A dictionary: an ordered list of byte-string keys and their values.
#[derive(Debug)]
pub struct PdfDict {
    pub entries: Vec<(Vec<u8>, PdfValue)>,
}

/// An object held by the document store.
#[derive(Debug)]
pub enum PdfObj {
    Dict(PdfDict),
    Ref(ObjId),
    Text(Vec<u8>),
    Other,
}

/// The document object store: a mapping from object id to object value,
/// plus the trailer dictionary giving the entry point (`Root`).
#[derive(Debug)]
pub struct DocStore {
    pub objects: Vec<(ObjId, PdfObj)>,
    pub trailer: PdfDict,
}

/// Mathematical model of a dictionary value.
pub enum ValView {
    Ref(ObjId),
    Text(Seq<u8>),
    Other,
}

/// Mathematical model of a stored object.
pub enum ObjView {
    Dict(Seq<(Seq<u8>, ValView)>),
    Ref(ObjId),
    Text(Seq<u8>),
    Other,
}

/// Mathematical model of the store: an association list of objects and the
/// trailer's entries. Lookups take the first entry with a matching key.
pub struct StoreView {
    pub objects: Seq<(ObjId, ObjView)>,
    pub trailer: Seq<(Seq<u8>, ValView)>,
}

impl View for PdfValue {
    type V = ValView;

    open spec fn view(&self) -> ValView {
        match self {
            PdfValue::Ref(id) => ValView::Ref(*id),
            PdfValue::Text(b) => ValView::Text(b@),
            PdfValue::Other => ValView::Other,
        }
    }
}

impl View for PdfDict {
    type V = Seq<(Seq<u8>, ValView)>;

    open spec fn view(&self) -> Seq<(Seq<u8>, ValView)> {
        Seq::new(self.entries@.len(), |i: int| (self.entries@[i].0@, self.entries@[i].1@))
    }
}

impl View for PdfObj {
    type V = ObjView;

    open spec fn view(&self) -> ObjView {
        match self {
            PdfObj::Dict(d) => ObjView::Dict(d@),
            PdfObj::Ref(id) => ObjView::Ref(*id),
            PdfObj::Text(b) => ObjView::Text(b@),
            PdfObj::Other => ObjView::Other,
        }
    }
}

impl View for DocStore {
    type V = StoreView;

    open spec fn view(&self) -> StoreView {
        StoreView {
            objects: Seq::new(self.objects@.len(), |i: int| (self.objects@[i].0, self.objects@[i].1@)),
            trailer: self.trailer@,
        }
    }
}

/// First entry of `entries` whose key equals `key`, if any.
pub open spec fn dict_get_spec(entries: Seq<(Seq<u8>, ValView)>, key: Seq<u8>) -> Option<ValView>
    decreases entries.len(),
{
    if entries.len() == 0 {
        Option::None
    } else if entries[0].0 == key {
        Option::Some(entries[0].1)
    } else {
        dict_get_spec(entries.subrange(1, entries.len() as int), key)
    }
}

/// First object stored under `id`, if any.
pub open spec fn lookup_spec(objects: Seq<(ObjId, ObjView)>, id: ObjId) -> Option<ObjView>
    decreases objects.len(),
{
    if objects.len() == 0 {
        Option::None
    } else if objects[0].0 == id {
        Option::Some(objects[0].1)
    } else {
        lookup_spec(objects.subrange(1, objects.len() as int), id)
    }
}

/// Byte-for-byte equality of two byte strings.
fn bytes_eq(a: &[u8], b: &[u8]) -> (r: bool)
    ensures
        r == (a@ == b@),
{
    if a.len() != b.len() {
        assert(a@.len() != b@.len());
        return false;
    }
    let mut i: usize = 0;
    while i < a.len()
        invariant
            i <= a@.len(),
            a@.len() == b@.len(),
            forall|j: int| 0 <= j < i ==> a@[j] == b@[j],
        decreases a@.len() - i,
    {
        if a[i] != b[i] {
            return false;
        }
        i += 1;
    }
    proof {
        assert(a@ =~= b@);
    }
    true
}

impl PdfDict {
    /// Value of the first entry whose key is `key`, if any.
    pub fn get(&self, key: &[u8]) -> (r: Option<&PdfValue>)
        ensures
            match r {
                Option::Some(v) => dict_get_spec(self@, key@) == Option::Some(v@),
                Option::None => dict_get_spec(self@, key@) is None,
            },
    {
        let n = self.entries.len();
        proof {
            assert(self@.subrange(0, n as int) =~= self@);
        }
        let mut i: usize = 0;
        while i < n
            invariant
                n == self.entries@.len(),
                i <= n,
                dict_get_spec(self@, key@) == dict_get_spec(self@.subrange(i as int, n as int), key@),
            decreases n - i,
        {
            proof {
                assert(self@.subrange(i as int, n as int)[0] == (self.entries@[i as int].0@, self.entries@[i as int].1@));
                assert(self@.subrange(i as int, n as int).subrange(1, (n - i) as int) =~= self@.subrange(i + 1, n as int));
            }
            if bytes_eq(self.entries[i].0.as_slice(), key) {
                return Some(&self.entries[i].1);
            }
            i += 1;
        }
        proof {
            assert(self@.subrange(n as int, n as int) =~= Seq::<(Seq<u8>, ValView)>::empty());
        }
        None
    }
}

impl DocStore {
    /// Object stored under `id`, if any: the store's `lookup`.
    pub fn get(&self, id: ObjId) -> (r: Option<&PdfObj>)
        ensures
            match r {
                Option::Some(o) => lookup_spec(self@.objects, id) == Option::Some(o@),
                Option::None => lookup_spec(self@.objects, id) is None,
            },
    {
        let n = self.objects.len();
        proof {
            assert(self@.objects.subrange(0, n as int) =~= self@.objects);
        }
        let mut i: usize = 0;
        while i < n
            invariant
                n == self.objects@.len(),
                i <= n,
                lookup_spec(self@.objects, id) == lookup_spec(self@.objects.subrange(i as int, n as int), id),
            decreases n - i,
        {
            proof {
                assert(self@.objects.subrange(i as int, n as int)[0] == (self.objects@[i as int].0, self.objects@[i as int].1@));
                assert(self@.objects.subrange(i as int, n as int).subrange(1, (n - i) as int) =~= self@.objects.subrange(i + 1, n as int));
            }
            if self.objects[i].0 == id {
                return Some(&self.objects[i].1);
            }
            i += 1;
        }
        proof {
            assert(self@.objects.subrange(n as int, n as int) =~= Seq::<(ObjId, ObjView)>::empty());
        }
        None
    }
}

} // verus!
