//! Where the pet of this run comes from: the environment gives an ordered list
//! of directories, and the first that holds a pet is taken.

use vstd::prelude::*;

use crate::strings::chars_of;
use crate::strings::join_path;
use crate::strings::split;

verus! {

/// The environment variables that matter, each where it is set.
#[derive(Debug)]
pub struct PetEnv {
    /// `AGENT_PET_SKIN`: a pet's name, or a path where it has a slash.
    pub skin: Option<String>,
    /// `AGENT_PET_DEFAULT_ASSET`
    pub default_asset: Option<String>,
    /// `XDG_CONFIG_HOME`
    pub config_home: Option<String>,
    /// `XDG_DATA_HOME`
    pub data_home: Option<String>,
    /// `XDG_DATA_DIRS`
    pub data_dirs: Option<String>,
    /// `HOME`
    pub home: Option<String>,
}

/// Why no pet is found.
#[derive(Debug, PartialEq, Eq)]
pub enum PetDirError {
    /// The skin that was asked for has no pet.
    NoSkin { skin: String, dir: String },
    /// Nothing was asked for, and none of the usual places has a pet.
    NoPet,
}

/// What a `PetDirError` says.
pub enum PetDirErrorView {
    NoSkin { skin: Seq<char>, dir: Seq<char> },
    NoPet,
}

impl View for PetDirError {
    type V = PetDirErrorView;

    open spec fn view(&self) -> PetDirErrorView {
        match self {
            PetDirError::NoSkin { skin, dir } => PetDirErrorView::NoSkin { skin: skin@, dir: dir@ },
            PetDirError::NoPet => PetDirErrorView::NoPet,
        }
    }
}

/// The error in words.
pub open spec fn message_of(e: PetDirErrorView) -> Seq<char> {
    match e {
        PetDirErrorView::NoSkin { skin, dir } => "AGENT_PET_SKIN="@ + skin + " has no pet.json at "@ + dir,
        PetDirErrorView::NoPet => "no pet asset found (install the default pet or set AGENT_PET_DEFAULT_ASSET)"@,
    }
}

impl PetDirError {
    /// The error in words.
    pub fn message(&self) -> (text: String)
        ensures
            text@ == message_of(self@),
    {
        match self {
            PetDirError::NoSkin { skin, dir } => {
                let mut s: String = "AGENT_PET_SKIN=".to_owned();
                s.append(skin.as_str());
                s.append(" has no pet.json at ");
                s.append(dir.as_str());
                s
            },
            PetDirError::NoPet =>
                "no pet asset found (install the default pet or set AGENT_PET_DEFAULT_ASSET)".to_owned(),
        }
    }
}

/// The home directory, the root where it is not known.
pub open spec fn home_of(env: PetEnv) -> Seq<char> {
    match env.home {
        Some(h) => h@,
        None => "/"@,
    }
}

pub open spec fn config_home_of(env: PetEnv) -> Seq<char> {
    match env.config_home {
        Some(c) => c@,
        None => crate::strings::joined(home_of(env), ".config"@),
    }
}

pub open spec fn data_home_of(env: PetEnv) -> Seq<char> {
    match env.data_home {
        Some(d) => d@,
        None => crate::strings::joined(home_of(env), ".local/share"@),
    }
}

/// The parts that are not empty, in order.
pub open spec fn nonempty(parts: Seq<Seq<char>>) -> Seq<Seq<char>>
    decreases parts.len(),
{
    if parts.len() == 0 {
        Seq::empty()
    } else if parts.last().len() > 0 {
        nonempty(parts.drop_last()).push(parts.last())
    } else {
        nonempty(parts.drop_last())
    }
}

/// The data directories in order: the user's own, then the system's.
pub open spec fn data_dirs_of(env: PetEnv) -> Seq<Seq<char>> {
    let system = match env.data_dirs {
        Some(d) => d@,
        None => "/usr/local/share:/usr/share"@,
    };
    seq![data_home_of(env)] + nonempty(crate::strings::pieces(system, ':'))
}

/// Where a skin's pet is: at the path that it is, or by name below the
/// configuration directory.
pub open spec fn skin_dir(env: PetEnv, skin: Seq<char>) -> Seq<char> {
    if skin.contains('/') {
        skin
    } else {
        crate::strings::joined(crate::strings::joined(config_home_of(env), "agent-pet/pets"@), skin)
    }
}

/// The directories that are tried, in order: the skin's alone where one is
/// asked for; else the default pet of each data directory, and the default
/// asset.
pub open spec fn candidates_of(env: PetEnv) -> Seq<Seq<char>> {
    match env.skin {
        Some(s) => seq![skin_dir(env, s@)],
        None => {
            let data = data_dirs_of(env).map_values(
                |d: Seq<char>| crate::strings::joined(d, "agent-pet/default-pet"@),
            );
            match env.default_asset {
                Some(a) => data.push(a@),
                None => data,
            }
        },
    }
}

fn home(env: &PetEnv) -> (dir: String)
    ensures
        dir@ == home_of(*env),
{
    match &env.home {
        Some(h) => h.clone(),
        None => "/".to_owned(),
    }
}

fn config_home(env: &PetEnv) -> (dir: String)
    ensures
        dir@ == config_home_of(*env),
{
    match &env.config_home {
        Some(c) => c.clone(),
        None => join_path(home(env).as_str(), ".config"),
    }
}

fn data_dirs(env: &PetEnv) -> (dirs: Vec<String>)
    ensures
        crate::strings::texts_of(dirs@) == data_dirs_of(*env),
{
    let first: String = match &env.data_home {
        Some(d) => d.clone(),
        None => join_path(home(env).as_str(), ".local/share"),
    };
    let system: String = match &env.data_dirs {
        Some(d) => d.clone(),
        None => "/usr/local/share:/usr/share".to_owned(),
    };
    let parts: Vec<String> = split(system.as_str(), ':');
    let ghost texts = crate::strings::texts_of(parts@);
    let mut dirs: Vec<String> = Vec::new();
    dirs.push(first);
    let mut i: usize = 0;
    assert(texts.take(0) =~= Seq::<Seq<char>>::empty());
    assert(crate::strings::texts_of(dirs@) =~= seq![data_home_of(*env)] + nonempty(texts.take(0)));
    while i < parts.len()
        invariant
            i <= parts@.len(),
            texts == crate::strings::texts_of(parts@),
            crate::strings::texts_of(dirs@) == seq![data_home_of(*env)] + nonempty(texts.take(i as int)),
        decreases parts@.len() - i,
    {
        let ghost before = crate::strings::texts_of(dirs@);
        assert(texts.take(i + 1).drop_last() =~= texts.take(i as int));
        assert(texts.take(i + 1).last() == parts@[i as int]@);
        if !parts[i].as_str().is_empty() {
            let part: String = parts[i].clone();
            dirs.push(part);
            assert(crate::strings::texts_of(dirs@) =~= before.push(part@));
            assert(before.push(part@) =~= seq![data_home_of(*env)] + nonempty(texts.take(i + 1)));
        }
        i += 1;
    }
    assert(texts.take(i as int) =~= texts);
    dirs
}

/// The directories that may hold the pet, in the order in which they are
/// tried.
pub fn candidates(env: &PetEnv) -> (dirs: Vec<String>)
    ensures
        crate::strings::texts_of(dirs@) == candidates_of(*env),
{
    let mut dirs: Vec<String> = Vec::new();
    if let Some(skin) = &env.skin {
        let v: Vec<char> = chars_of(skin.as_str());
        let mut slash: bool = false;
        let mut i: usize = 0;
        while i < v.len()
            invariant
                i <= v@.len(),
                slash == exists|k: int| 0 <= k < i && v@[k] == '/',
            decreases v@.len() - i,
        {
            if v[i] == '/' {
                slash = true;
            }
            i += 1;
        }
        assert(slash == skin@.contains('/'));
        let dir: String = if slash {
            skin.clone()
        } else {
            let pets: String = join_path(config_home(env).as_str(), "agent-pet/pets");
            join_path(pets.as_str(), skin.as_str())
        };
        dirs.push(dir);
        assert(crate::strings::texts_of(dirs@) =~= candidates_of(*env));
        return dirs;
    }
    let data: Vec<String> = data_dirs(env);
    let ghost f = |d: Seq<char>| crate::strings::joined(d, "agent-pet/default-pet"@);
    let ghost all = data_dirs_of(*env).map_values(f);
    let mut i: usize = 0;
    while i < data.len()
        invariant
            i <= data@.len(),
            crate::strings::texts_of(data@) == data_dirs_of(*env),
            f == (|d: Seq<char>| crate::strings::joined(d, "agent-pet/default-pet"@)),
            all == data_dirs_of(*env).map_values(f),
            crate::strings::texts_of(dirs@) == all.take(i as int),
        decreases data@.len() - i,
    {
        assert(data_dirs_of(*env)[i as int] == data@[i as int]@);
        let dir: String = join_path(data[i].as_str(), "agent-pet/default-pet");
        let ghost before = crate::strings::texts_of(dirs@);
        dirs.push(dir);
        assert(crate::strings::texts_of(dirs@) =~= before.push(dir@));
        assert(all.take(i + 1) =~= all.take(i as int).push(all[i as int]));
        i += 1;
    }
    assert(all.take(i as int) =~= all);
    if let Some(asset) = &env.default_asset {
        let asset: String = asset.clone();
        let ghost before = crate::strings::texts_of(dirs@);
        dirs.push(asset);
        assert(crate::strings::texts_of(dirs@) =~= before.push(asset@));
    }
    assert(crate::strings::texts_of(dirs@) =~= candidates_of(*env));
    dirs
}

/// `i` is the first candidate that holds a pet.
pub open spec fn first_present(present: Seq<bool>, i: int) -> bool {
    &&& 0 <= i < present.len()
    &&& present[i]
    &&& forall|k: int| 0 <= k < i ==> !#[trigger] present[k]
}

/// No candidate holds a pet.
pub open spec fn none_present(present: Seq<bool>) -> bool {
    forall|k: int| 0 <= k < present.len() ==> !#[trigger] present[k]
}

/// Resolve the pet directory for this run, given for each candidate whether it
/// holds a pet.
pub fn resolve_pet_dir(env: &PetEnv, present: &[bool]) -> (dir: Result<String, PetDirError>)
    requires
        present@.len() == candidates_of(*env).len(),
    ensures
        match dir {
            Ok(d) => exists|i: int| #[trigger] first_present(present@, i) && d@ == candidates_of(*env)[i],
            Err(e) => {
                &&& none_present(present@)
                &&& e@ == match env.skin {
                    Some(s) => PetDirErrorView::NoSkin { skin: s@, dir: skin_dir(*env, s@) },
                    None => PetDirErrorView::NoPet,
                }
            },
        },
{
    let dirs: Vec<String> = candidates(env);
    assert(dirs@.len() == crate::strings::texts_of(dirs@).len());
    let mut i: usize = 0;
    while i < present.len()
        invariant
            i <= present@.len(),
            present@.len() == dirs@.len(),
            crate::strings::texts_of(dirs@) == candidates_of(*env),
            forall|k: int| 0 <= k < i ==> !#[trigger] present@[k],
        decreases present@.len() - i,
    {
        if present[i] {
            assert(first_present(present@, i as int));
            assert(candidates_of(*env)[i as int] == dirs@[i as int]@);
            return Ok(dirs[i].clone());
        }
        i += 1;
    }
    match &env.skin {
        Some(skin) => {
            assert(candidates_of(*env)[0] == dirs@[0]@);
            Err(PetDirError::NoSkin { skin: skin.clone(), dir: dirs[0].clone() })
        },
        None => Err(PetDirError::NoPet),
    }
}

/// A skin that is asked for is never replaced by another pet: either its own
/// directory is taken, or none.
pub proof fn skin_is_taken_or_refused(env: PetEnv, i: int)
    requires
        env.skin is Some,
        0 <= i < candidates_of(env).len(),
    ensures
        candidates_of(env)[i] == skin_dir(env, env.skin->0@),
{
}

/// The parts that count are those with something in them, all of them, and in
/// the order that they had.
pub proof fn empty_parts_do_not_count(parts: Seq<Seq<char>>)
    ensures
        forall|k: int| 0 <= k < nonempty(parts).len() ==> (#[trigger] nonempty(parts)[k]).len() > 0,
        forall|p: Seq<char>| p.len() > 0 ==> nonempty(parts).contains(p) == #[trigger] parts.contains(p),
        nonempty(parts).len() <= parts.len(),
        (forall|k: int| 0 <= k < parts.len() ==> (#[trigger] parts[k]).len() > 0) ==> nonempty(parts) == parts,
    decreases parts.len(),
{
    if parts.len() > 0 {
        let rest = parts.drop_last();
        let n = nonempty(rest);
        let all = nonempty(parts);
        empty_parts_do_not_count(rest);
        assert(parts =~= rest.push(parts.last()));
        assert forall|k: int| 0 <= k < all.len() implies (#[trigger] all[k]).len() > 0 by {
            if k < n.len() {
                assert(all[k] == n[k]);
            }
        }
        assert forall|p: Seq<char>| p.len() > 0 implies all.contains(p) == #[trigger] parts.contains(p) by {
            assert(n.contains(p) == rest.contains(p));
            if parts.contains(p) {
                let k = choose|k: int| 0 <= k < parts.len() && parts[k] == p;
                if k < rest.len() {
                    assert(rest[k] == p);
                    let m = choose|m: int| 0 <= m < n.len() && n[m] == p;
                    assert(all[m] == p);
                } else {
                    assert(all[all.len() - 1] == p);
                }
            }
            if all.contains(p) {
                let m = choose|m: int| 0 <= m < all.len() && all[m] == p;
                if m < n.len() {
                    assert(n[m] == p);
                    let k = choose|k: int| 0 <= k < rest.len() && rest[k] == p;
                    assert(parts[k] == p);
                } else {
                    assert(parts[parts.len() - 1] == p);
                }
            }
        }
        if forall|k: int| 0 <= k < parts.len() ==> (#[trigger] parts[k]).len() > 0 {
            assert forall|k: int| 0 <= k < rest.len() implies (#[trigger] rest[k]).len() > 0 by {
                assert(parts[k] == rest[k]);
            }
            assert(parts[parts.len() - 1].len() > 0);
            assert(all =~= parts);
        }
    }
}

/// Without a skin, the user's own data directory is tried first, then the
/// system's, each for its default pet, and the default asset last of all.
pub proof fn directories_are_tried_in_order(env: &PetEnv, dirs: Vec<String>, k: int)
    requires
        call_ensures(candidates, (env,), dirs),
        env.skin is None,
        env.data_home is Some,
        env.data_dirs is Some,
        env.data_home->0@.len() > 0,
        env.data_home->0@.last() != '/',
    ensures
        ({
            let system = nonempty(crate::strings::pieces(env.data_dirs->0@, ':'));
            &&& dirs@.len() == 1 + system.len() + if env.default_asset is Some {
                1int
            } else {
                0
            }
            &&& dirs@[0]@ == env.data_home->0@ + "/agent-pet/default-pet"@
            &&& 0 <= k < system.len() && system[k].last() != '/' ==> dirs@[1 + k]@ == system[k]
                + "/agent-pet/default-pet"@
            &&& env.default_asset matches Some(a) ==> dirs@[dirs@.len() - 1]@ == a@
        }),
{
    reveal_strlit("agent-pet/default-pet");
    reveal_strlit("/agent-pet/default-pet");
    let texts = crate::strings::texts_of(dirs@);
    let system = nonempty(crate::strings::pieces(env.data_dirs->0@, ':'));
    empty_parts_do_not_count(crate::strings::pieces(env.data_dirs->0@, ':'));
    assert(texts == candidates_of(*env));
    assert(dirs@.len() == texts.len());
    assert(texts[0] == dirs@[0]@);
    assert(texts[0] =~= env.data_home->0@ + "/agent-pet/default-pet"@);
    if 0 <= k < system.len() && system[k].last() != '/' {
        assert(texts[1 + k] == dirs@[1 + k]@);
        assert(data_dirs_of(*env)[1 + k] == system[k]);
        assert(system[k].len() > 0);
        assert(texts[1 + k] =~= system[k] + "/agent-pet/default-pet"@);
    }
    if env.default_asset is Some {
        assert(texts[texts.len() - 1] == dirs@[dirs@.len() - 1]@);
    }
}

/// Directories that the environment does not name are the usual ones: below the
/// home, and the two of the system.
pub proof fn unnamed_directories_are_the_usual(env: PetEnv)
    requires
        env.home is Some,
        env.home->0@.len() > 0,
        env.home->0@.last() != '/',
        env.data_home is None,
        env.config_home is None,
        env.data_dirs is None,
    ensures
        data_home_of(env) == env.home->0@ + "/.local/share"@,
        config_home_of(env) == env.home->0@ + "/.config"@,
        data_dirs_of(env) == seq![env.home->0@ + "/.local/share"@] + nonempty(
            crate::strings::pieces("/usr/local/share:/usr/share"@, ':'),
        ),
{
    reveal_strlit(".local/share");
    reveal_strlit("/.local/share");
    reveal_strlit(".config");
    reveal_strlit("/.config");
    assert(data_home_of(env) =~= env.home->0@ + "/.local/share"@);
    assert(config_home_of(env) =~= env.home->0@ + "/.config"@);
}

/// A skin with a slash is a path and taken as it is; one without is a name, and
/// its pet lies among the user's own.
pub proof fn skins_are_paths_or_names(env: &PetEnv, skin: String, dirs: Vec<String>)
    requires
        call_ensures(candidates, (env,), dirs),
        env.skin == Some(skin),
        env.config_home is Some,
        env.config_home->0@.len() > 0,
        env.config_home->0@.last() != '/',
    ensures
        dirs@.len() == 1,
        skin@.contains('/') ==> dirs@[0]@ == skin@,
        !skin@.contains('/') ==> dirs@[0]@ == env.config_home->0@ + "/agent-pet/pets/"@ + skin@,
{
    reveal_strlit("agent-pet/pets");
    reveal_strlit("/agent-pet/pets/");
    let texts = crate::strings::texts_of(dirs@);
    assert(dirs@.len() == texts.len());
    assert(texts[0] == dirs@[0]@);
    if !skin@.contains('/') {
        assert(texts[0] =~= env.config_home->0@ + "/agent-pet/pets/"@ + skin@);
    }
}

/// The pet comes from the first directory that has one; only where none does is
/// there an error, about the skin where one was asked for.
pub proof fn first_pet_is_taken(
    env: &PetEnv,
    present: &[bool],
    dirs: Vec<String>,
    dir: Result<String, PetDirError>,
    i: int,
)
    requires
        call_ensures(candidates, (env,), dirs),
        call_ensures(resolve_pet_dir, (env, present), dir),
        present@.len() == dirs@.len(),
        0 <= i < present@.len(),
        forall|k: int| 0 <= k < i ==> !(#[trigger] present@[k]),
    ensures
        present@[i] ==> dir is Ok && dir->Ok_0@ == dirs@[i]@,
        i == present@.len() - 1 && !present@[i] ==> dir is Err && (dir->Err_0 is NoSkin <==> env.skin is Some),
{
    let texts = crate::strings::texts_of(dirs@);
    assert(texts[i] == dirs@[i]@);
    if let Ok(d) = dir {
        let j = choose|j: int| #[trigger] first_present(present@, j) && d@ == candidates_of(*env)[j];
        if i < j {
            assert(!present@[i]);
        }
        if j < i {
            assert(!present@[j]);
        }
    } else {
        assert(!present@[i]);
    }
}

/// Where no home is known, the usual directories lie below the root.
pub proof fn unknown_homes_are_the_root(env: PetEnv)
    requires
        env.home is None,
        env.data_home is None,
        env.config_home is None,
    ensures
        data_home_of(env) == "/.local/share"@,
        config_home_of(env) == "/.config"@,
{
    reveal_strlit("/");
    reveal_strlit(".local/share");
    reveal_strlit("/.local/share");
    reveal_strlit(".config");
    reveal_strlit("/.config");
    assert(data_home_of(env) =~= "/.local/share"@);
    assert(config_home_of(env) =~= "/.config"@);
}

/// A skin without a pet is refused by its name, with the directory that was
/// looked in.
pub proof fn missing_skins_are_told_by_name(skin: String, dir: String, text: String)
    requires
        call_ensures(PetDirError::message, (&(PetDirError::NoSkin { skin, dir }),), text),
    ensures
        text@ == "AGENT_PET_SKIN="@ + skin@ + " has no pet.json at "@ + dir@,
{
}

} // verus!
