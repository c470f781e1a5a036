//! The resource record and the requests that create or delete one.
use vstd::prelude::*;

verus! {

/// Seconds since the Unix epoch.
pub type UnixTime = i64;

/// A named resource that clients can reserve for a bounded time.
///
/// `reserved_until == 0` means "not reserved", as does an empty
/// `reserved_by`; the two are set and cleared together.
#[derive(Debug, Clone, PartialEq, Eq)]
pub struct Resource {
    pub name: String,
    pub description: String,
    pub reserved_until: UnixTime,
    pub reserved_by: String,
    /// Free-form key/value metadata: a mapping, so no key occurs twice
    /// (see [`keys_distinct`]).
    pub other_fields: Vec<(String, String)>,
}

/// The mathematical value of a [`Resource`].
pub struct ResourceView {
    pub name: Seq<char>,
    pub description: Seq<char>,
    pub reserved_until: UnixTime,
    pub reserved_by: Seq<char>,
    pub other_fields: Seq<(Seq<char>, Seq<char>)>,
}

/// The key/value entries as pairs of character sequences.
pub open spec fn fields_view(f: Seq<(String, String)>) -> Seq<(Seq<char>, Seq<char>)> {
    f.map_values(|p: (String, String)| (p.0@, p.1@))
}

/// No key occurs twice among the entries: they form a mapping.
pub open spec fn keys_distinct(f: Seq<(Seq<char>, Seq<char>)>) -> bool {
    forall|i: int, j: int| 0 <= i < f.len() && 0 <= j < f.len() && i != j ==> f[i].0 != f[j].0
}

/// Whether no key occurs twice among the entries.
pub fn has_distinct_keys(f: &Vec<(String, String)>) -> (r: bool)
    ensures
        r == keys_distinct(fields_view(f@)),
{
    let ghost v = fields_view(f@);
    let mut i: usize = 0;
    while i < f.len()
        invariant
            i <= f.len(),
            v == fields_view(f@),
            forall|a: int, b: int| 0 <= a < i && 0 <= b < f.len() && a != b ==> v[a].0 != v[b].0,
        decreases f.len() - i,
    {
        let mut j: usize = 0;
        while j < f.len()
            invariant
                i < f.len(),
                j <= f.len(),
                v == fields_view(f@),
                forall|a: int, b: int| 0 <= a < i && 0 <= b < f.len() && a != b ==> v[a].0 != v[b].0,
                forall|b: int| 0 <= b < j && b != i ==> v[i as int].0 != v[b].0,
            decreases f.len() - j,
        {
            if j != i && f[i].0 == f[j].0 {
                assert(v[i as int].0 == v[j as int].0);
                return false;
            }
            j = j + 1;
        }
        i = i + 1;
    }
    true
}

impl View for Resource {
    type V = ResourceView;

    open spec fn view(&self) -> ResourceView {
        ResourceView {
            name: self.name@,
            description: self.description@,
            reserved_until: self.reserved_until,
            reserved_by: self.reserved_by@,
            other_fields: fields_view(self.other_fields@),
        }
    }
}

impl ResourceView {
    /// The lease fields agree: no deadline exactly when no holder.
    pub open spec fn paired(self) -> bool {
        (self.reserved_until == 0) == (self.reserved_by.len() == 0)
    }

    /// The entries form a mapping: no key occurs twice.
    pub open spec fn wf(self) -> bool {
        keys_distinct(self.other_fields)
    }

    /// The record as it is once its lease has been released.
    pub open spec fn released(self) -> ResourceView {
        ResourceView { reserved_until: 0, reserved_by: Seq::empty(), ..self }
    }
}

/// A fresh copy of key/value entries.
pub fn copy_fields(f: &Vec<(String, String)>) -> (r: Vec<(String, String)>)
    ensures
        fields_view(r@) == fields_view(f@),
{
    let mut r: Vec<(String, String)> = Vec::new();
    let mut i: usize = 0;
    while i < f.len()
        invariant
            i <= f.len(),
            r@.len() == i,
            forall|j: int| 0 <= j < i ==> r@[j].0@ == f@[j].0@ && r@[j].1@ == f@[j].1@,
        decreases f.len() - i,
    {
        let k = f[i].0.clone();
        let v = f[i].1.clone();
        r.push((k, v));
        i = i + 1;
    }
    assert(fields_view(r@) =~= fields_view(f@));
    r
}

impl Resource {
    /// A copy of this record.
    pub fn duplicate(&self) -> (r: Resource)
        ensures
            r@ == self@,
    {
        Resource {
            name: self.name.clone(),
            description: self.description.clone(),
            reserved_until: self.reserved_until,
            reserved_by: self.reserved_by.clone(),
            other_fields: copy_fields(&self.other_fields),
        }
    }

    /// Whether the lease fields agree (see [`ResourceView::paired`]).
    pub fn is_paired(&self) -> (r: bool)
        ensures
            r == self@.paired(),
    {
        (self.reserved_until == 0) == self.reserved_by.as_str().is_empty()
    }
}

/// A request to create a resource.
#[derive(Debug, Clone, PartialEq, Eq)]
pub struct ResourceCreateReq {
    pub name: String,
    pub description: String,
    pub other_fields: Option<Vec<(String, String)>>,
}

impl ResourceCreateReq {
    /// The record to insert: unreserved, with the given entries or none.
    pub fn into_resource(self) -> (r: Resource)
        ensures
            r@ == (ResourceView {
                name: self.name@,
                description: self.description@,
                reserved_until: 0,
                reserved_by: Seq::empty(),
                other_fields: match self.other_fields {
                    Some(f) => fields_view(f@),
                    None => Seq::empty(),
                },
            }),
            r@.paired(),
    {
        let other_fields = match self.other_fields {
            Some(f) => f,
            None => Vec::new(),
        };
        proof {
            assert(fields_view(Seq::<(String, String)>::empty()) =~= Seq::empty());
        }
        Resource {
            name: self.name,
            description: self.description,
            reserved_until: 0,
            reserved_by: String::new(),
            other_fields,
        }
    }
}

/// A request to delete the resource with the given name.
#[derive(Debug, Clone, PartialEq, Eq)]
pub struct ResourceDeleteReq {
    pub name: String,
}

} // verus!
