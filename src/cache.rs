use vstd::prelude::*;

use crate::protocol::GameData;

verus! {

/// The directory under which data packages are cached, one file per game and
/// checksum: `<root>/datapackage/<game>/<checksum>.json`.
#[derive(Debug)]
pub struct Cache {
    pub root: String,
}

/// Whether `data` was found for a request of the game `name` with the
/// checksum that `data` has.
pub open spec fn chosen(
    requests: Seq<(String, String)>,
    found: Seq<Option<GameData>>,
    name: Seq<char>,
    data: GameData,
) -> bool {
    exists|i: int|
        0 <= i < requests.len() && (#[trigger] requests[i]).0@ == name && found[i] == Some(data)
            && data.checksum@ == requests[i].1@
}

/// Whether `selected` holds `data` for the game `name`.
pub open spec fn kept(selected: Seq<(String, GameData)>, name: Seq<char>, data: GameData) -> bool {
    exists|k: int| 0 <= k < selected.len() && (#[trigger] selected[k]).0@ == name && selected[k].1 == data
}

/// The directory of cached data packages under `root`.
pub open spec fn data_package_dir(root: Seq<char>) -> Seq<char> {
    root + "/datapackage"@
}

/// The directory of the cached data packages of `game`.
pub open spec fn game_dir(root: Seq<char>, game: Seq<char>) -> Seq<char> {
    data_package_dir(root) + "/"@ + game
}

/// The file that caches the data package of `game` with `checksum`.
pub open spec fn data_package_file(root: Seq<char>, game: Seq<char>, checksum: Seq<char>) -> Seq<char> {
    game_dir(root, game) + "/"@ + checksum + ".json"@
}

impl Cache {
    /// A cache rooted at `path`.
    pub fn path(path: String) -> (r: Cache)
        ensures
            r.root == path,
    {
        Cache { root: path }
    }

    /// The directory of cached data packages.
    pub fn data_package_path(&self) -> (r: String)
        ensures
            r@ == data_package_dir(self.root@),
    {
        let mut r = self.root.clone();
        r.append("/datapackage");
        r
    }

    /// The directory of the cached data packages of `game`.
    pub fn game_path(&self, game: &String) -> (r: String)
        ensures
            r@ == game_dir(self.root@, game@),
    {
        let mut r = self.data_package_path();
        r.append("/");
        r.append(game.as_str());
        r
    }

    /// The file that caches the data package of `game` with `checksum`.
    pub fn file_path(&self, game: &String, checksum: &String) -> (r: String)
        ensures
            r@ == data_package_file(self.root@, game@, checksum@),
    {
        let mut r = self.game_path(game);
        r.append("/");
        r.append(checksum.as_str());
        r.append(".json");
        r
    }

    /// Whether cached data may stand for the data package with checksum
    /// `expected`: its own checksum must be the same.
    pub fn accepts(expected: &String, data: &GameData) -> (r: bool)
        ensures
            r == (data.checksum@ == expected@),
    {
        data.checksum == *expected
    }

    /// Keeps the cached data that may stand for each requested game:
    /// `found[i]` is what the cache file of `requests[i]` held, if it could be
    /// read and decoded, and `requests[i]` names a game and the checksum it
    /// should have.
    pub fn select(requests: &Vec<(String, String)>, found: Vec<Option<GameData>>) -> (r: Vec<(String, GameData)>)
        requires
            found.len() == requests.len(),
        ensures
            forall|k: int| 0 <= k < r.len() ==> chosen(requests@, found@, (#[trigger] r[k]).0@, r[k].1),
            forall|i: int| 0 <= i < requests.len() && (#[trigger] found[i]) is Some
                && found[i]->Some_0.checksum@ == requests[i].1@ ==> kept(r@, requests[i].0@, found[i]->Some_0),
    {
        let ghost all = found@;
        let mut rest = found;
        let mut out: Vec<(String, GameData)> = Vec::new();
        let mut j: usize = 0;
        while j < requests.len()
            invariant
                j <= requests.len(),
                all.len() == requests.len(),
                rest@ == all.subrange(j as int, all.len() as int),
                forall|k: int| 0 <= k < out.len() ==> chosen(requests@, all, (#[trigger] out[k]).0@, out[k].1),
                forall|i: int| 0 <= i < j && (#[trigger] all[i]) is Some && all[i]->Some_0.checksum@ == requests[i].1@
                    ==> kept(out@, requests[i].0@, all[i]->Some_0),
            decreases requests.len() - j,
        {
            let entry = rest.remove(0);
            assert(entry == all[j as int]);
            if let Some(data) = entry {
                if Cache::accepts(&requests[j].1, &data) {
                    let ghost before = out@;
                    out.push((requests[j].0.clone(), data));
                    proof {
                        let n = before.len() as int;
                        assert(chosen(requests@, all, out@[n].0@, out@[n].1)) by {
                            assert(requests@[j as int].0@ == out@[n].0@);
                        }
                        assert forall|k: int| 0 <= k < out.len() implies chosen(requests@, all, (#[trigger] out[k]).0@, out[k].1) by {
                            if k < n {
                                assert(out@[k] == before[k]);
                            }
                        }
                        assert forall|i: int| 0 <= i < j + 1 && (#[trigger] all[i]) is Some && all[i]->Some_0.checksum@ == requests[i].1@
                            implies kept(out@, requests[i].0@, all[i]->Some_0) by {
                            if i < j {
                                let k = choose|k: int| 0 <= k < before.len() && (#[trigger] before[k]).0@ == requests[i].0@
                                    && before[k].1 == all[i]->Some_0;
                                assert(out@[k] == before[k]);
                            } else {
                                assert(out@[n].0@ == requests[i].0@);
                            }
                        }
                    }
                }
            }
            j = j + 1;
        }
        out
    }
}

} // verus!
