use vstd::prelude::*;
use vstd::string::StrSliceExecFns;

use crate::platform::names_of;
use crate::version::strip_v;

verus! {

/// One file attached to a release: its name and the upstream numeric id.
#[derive(Debug, Clone)]
pub struct ReleaseAsset {
    pub name: String,
    pub id: u64,
}

/// The latest release of a repository, as fetched upstream.
#[derive(Debug, Clone)]
pub struct ReleaseDescriptor {
    pub tag: String,
    /// Publication time, already written in RFC 3339.
    pub published_at: Option<String>,
    pub notes: String,
    /// The attached files, in upstream order.
    pub assets: Vec<ReleaseAsset>,
}

/// The names of the assets, in order.
pub open spec fn asset_names(assets: Seq<ReleaseAsset>) -> Seq<Seq<char>> {
    assets.map_values(|a: ReleaseAsset| a.name@)
}

/// The id of the first asset named `name`, if any.
pub open spec fn id_of(assets: Seq<ReleaseAsset>, name: Seq<char>) -> Option<u64>
    decreases assets.len(),
{
    if assets.len() == 0 {
        None
    } else if assets[0].name@ == name {
        Some(assets[0].id)
    } else {
        id_of(assets.drop_first(), name)
    }
}

/// The text of an optional value, or the empty text.
pub open spec fn text_or_empty(o: Option<String>) -> Seq<char> {
    match o {
        Some(s) => s@,
        None => Seq::empty(),
    }
}

/// A tag with one leading `v` taken off.
pub fn strip_leading_v(tag: &str) -> (r: &str)
    ensures
        r@ == strip_v(tag@),
{
    let n = tag.unicode_len();
    if n > 0 && tag.get_char(0) == 'v' {
        tag.substring_char(1, n)
    } else {
        tag
    }
}

impl ReleaseDescriptor {
    /// The asset names, in upstream order.
    pub fn asset_names(&self) -> (r: Vec<String>)
        ensures
            names_of(r@) == asset_names(self.assets@),
    {
        let mut r: Vec<String> = Vec::new();
        let mut i: usize = 0;
        while i < self.assets.len()
            invariant
                i <= self.assets@.len(),
                r@.len() == i,
                forall|k: int| 0 <= k < i ==> (#[trigger] r@[k])@ == self.assets@[k].name@,
            decreases self.assets@.len() - i,
        {
            r.push(self.assets[i].name.clone());
            i = i + 1;
        }
        proof {
            assert(names_of(r@) =~= asset_names(self.assets@));
        }
        r
    }

    /// The id of the first asset named `name`.
    pub fn asset_id_of(&self, name: &str) -> (r: Option<u64>)
        ensures
            r == id_of(self.assets@, name@),
    {
        let mut i: usize = 0;
        proof {
            assert(self.assets@.subrange(0, self.assets@.len() as int) =~= self.assets@);
        }
        while i < self.assets.len()
            invariant
                i <= self.assets@.len(),
                id_of(self.assets@, name@) == id_of(
                    self.assets@.subrange(i as int, self.assets@.len() as int),
                    name@,
                ),
            decreases self.assets@.len() - i,
        {
            let ghost rest = self.assets@.subrange(i as int, self.assets@.len() as int);
            assert(rest[0] == self.assets@[i as int]);
            assert(rest.drop_first() =~= self.assets@.subrange(i + 1, self.assets@.len() as int));
            if crate::text::same_text(self.assets[i].name.as_str(), name) {
                return Some(self.assets[i].id);
            }
            i = i + 1;
        }
        None
    }

    /// The tag with one leading `v` taken off: the text of the release's version.
    pub fn version_text(&self) -> (r: &str)
        ensures
            r@ == strip_v(self.tag@),
    {
        strip_leading_v(self.tag.as_str())
    }
}

} // verus!
