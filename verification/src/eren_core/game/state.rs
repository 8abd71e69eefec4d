use vstd::prelude::*;

verus! {

/// Whether some string of `v` has the characters `s`.
pub open spec fn strings_contain(v: Seq<String>, s: Seq<char>) -> bool {
    exists|i: int| 0 <= i < v.len() && #[trigger] v[i]@ == s
}

/// Exact membership test of a string in a vector of strings.
pub fn contains_string(v: &Vec<String>, s: &String) -> (found: bool)
    ensures
        found == strings_contain(v@, s@),
{
    let mut i: usize = 0;
    while i < v.len()
        invariant
            i <= v.len(),
            forall|j: int| 0 <= j < i ==> #[trigger] v@[j]@ != s@,
        decreases v.len() - i,
    {
        if v[i] == *s {
            return true;
        }
        i = i + 1;
    }
    false
}

/// The asset requests of a running game: what was asked for and what is ready.
pub struct GameState {
    pub required_assets: Vec<String>,
    pub loaded_assets: Vec<String>,
}

impl GameState {
    pub fn new() -> (state: Self)
        ensures
            state.required_assets@ == Seq::<String>::empty(),
            state.loaded_assets@ == Seq::<String>::empty(),
    {
        GameState { required_assets: Vec::new(), loaded_assets: Vec::new() }
    }

    /// Answers whether `asset_id` is loaded; an asset that is not is recorded as
    /// required, once.
    pub fn is_asset_loaded(&mut self, asset_id: String) -> (loaded: bool)
        ensures
            loaded == strings_contain(old(self).loaded_assets@, asset_id@),
            final(self).loaded_assets@ == old(self).loaded_assets@,
            final(self).required_assets@ == (if loaded || strings_contain(
                old(self).required_assets@,
                asset_id@,
            ) {
                old(self).required_assets@
            } else {
                old(self).required_assets@.push(asset_id)
            }),
    {
        if contains_string(&self.loaded_assets, &asset_id) {
            return true;
        }
        if !contains_string(&self.required_assets, &asset_id) {
            self.required_assets.push(asset_id.clone());
        }
        false
    }
}

} // verus!
