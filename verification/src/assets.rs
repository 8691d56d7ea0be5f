use vstd::prelude::*;

verus! {

/// Looks assets up under a fixed root directory. The directory walk is
/// I/O and happens outside the library; this type builds the path to
/// look for and decides, from the walked entry paths, whether a
/// requested asset exists. File contents are never read.
pub struct AssetManager {
    asset_path: String,
}

impl AssetManager {
    /// The asset root directory.
    pub closed spec fn root(self) -> Seq<char> {
        self.asset_path@
    }

    /// The path of `rel` under the asset root.
    pub open spec fn joined(self, rel: Seq<char>) -> Seq<char> {
        self.root() + "/"@ + rel
    }

    pub fn new() -> (r: AssetManager)
        ensures
            r.root() == "assets"@,
    {
        AssetManager { asset_path: String::from_str("assets") }
    }

    /// The asset root, for the caller that performs the directory walk.
    pub fn asset_root(&self) -> (r: &str)
        ensures
            r@ == self.root(),
    {
        self.asset_path.as_str()
    }

    /// Builds the full path of `rel` under the asset root.
    pub fn full_path(&self, rel: &str) -> (r: String)
        ensures
            r@ == self.joined(rel@),
    {
        let mut full = String::from_str(self.asset_path.as_str());
        full.append("/");
        full.append(rel);
        full
    }

    /// Reports, from the entry paths found under the asset root, whether
    /// `path` names an existing asset: an empty placeholder payload if
    /// some entry equals the root-joined path, nothing otherwise.
    pub fn load_asset(&self, entries: &Vec<String>, path: &str) -> (r: Option<Vec<u8>>)
        ensures
            match r {
                Some(v) => v@ == Seq::<u8>::empty() && exists|i: int|
                    0 <= i < entries@.len() && (#[trigger] entries@[i])@ == self.joined(path@),
                None => forall|i: int|
                    0 <= i < entries@.len() ==> (#[trigger] entries@[i])@ != self.joined(path@),
            },
    {
        let full = self.full_path(path);
        let mut i: usize = 0;
        while i < entries.len()
            invariant
                i <= entries@.len(),
                full@ == self.joined(path@),
                forall|j: int| 0 <= j < i ==> (#[trigger] entries@[j])@ != self.joined(path@),
            decreases entries@.len() - i,
        {
            if entries[i] == full {
                return Some(Vec::new());
            }
            i = i + 1;
        }
        None
    }
}

} // verus!
