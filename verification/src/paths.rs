//! Where configuration, data and the control socket live.

use crate::error::{fails, AppError, ErrorKind, Result};
use crate::text;
use crate::text::text_of;
use vstd::prelude::*;

verus! {

/// A path below `base`; an absolute path replaces it.
pub open spec fn joined_path(base: Seq<char>, path: Seq<char>) -> Seq<char> {
    if path.len() > 0 && path[0] == '/' {
        path
    } else if base.len() == 0 || base.last() == '/' {
        base + path
    } else {
        base + "/"@ + path
    }
}

/// A path below `base`; an absolute path replaces it.
pub fn join(base: &str, path: &str) -> (r: String)
    ensures
        r@ == joined_path(base@, path@),
{
    proof {
        reveal_strlit("/");
        assert("/"@ =~= seq!['/']);
    }
    if text::starts_with(path, "/") {
        assert(path@.take(1)[0] == path@[0]);
        path.to_owned()
    } else {
        assert(path@.len() > 0 ==> path@.take(1) =~= seq![path@[0]]);
        if base.is_empty() {
            text::concat2(base, path)
        } else if text::ends_with(base, "/") {
            assert(base@.skip(base@.len() - 1)[0] == base@.last());
            text::concat2(base, path)
        } else {
            assert(base@.skip(base@.len() - 1) =~= seq![base@.last()]);
            text::concat3(base, "/", path)
        }
    }
}

pub const APP_NAME: &'static str = "voxtype-meeting-service";

/// The directories that paths are resolved against. They are handed in, so that
/// nothing here reads the environment.
#[derive(Debug)]
pub struct PathResolver {
    home: String,
    xdg_config_home: Option<String>,
    xdg_data_home: Option<String>,
    xdg_runtime_dir: Option<String>,
    uid: u32,
}

/// The directories of a resolver as plain values.
pub struct Roots {
    pub home: Seq<char>,
    pub config_home: Option<Seq<char>>,
    pub data_home: Option<Seq<char>>,
    pub runtime_dir: Option<Seq<char>>,
    pub uid: u32,
}

impl View for PathResolver {
    type V = Roots;

    closed spec fn view(&self) -> Roots {
        Roots {
            home: self.home@,
            config_home: text_of(self.xdg_config_home),
            data_home: text_of(self.xdg_data_home),
            runtime_dir: text_of(self.xdg_runtime_dir),
            uid: self.uid,
        }
    }
}

/// A variable that is set to something.
pub open spec fn set_to(value: Option<String>) -> Option<Seq<char>> {
    match value {
        Some(s) if s@.len() > 0 => Some(s@),
        _ => None,
    }
}

/// A variable, where it is set to something.
pub fn env_path(value: Option<String>) -> (r: Option<String>)
    ensures
        match r {
            Some(s) => set_to(value) == Some(s@),
            None => set_to(value) is None,
        },
{
    match value {
        Some(s) => if s.as_str().is_empty() {
            None
        } else {
            Some(s)
        },
        None => None,
    }
}

impl Roots {
    pub open spec fn config_dir(self) -> Seq<char> {
        match self.config_home {
            Some(root) => joined_path(root, APP_NAME@),
            None => joined_path(joined_path(self.home, ".config"@), APP_NAME@),
        }
    }

    pub open spec fn data_dir(self) -> Seq<char> {
        match self.data_home {
            Some(root) => joined_path(root, APP_NAME@),
            None => joined_path(
                joined_path(joined_path(self.home, ".local"@), "share"@),
                APP_NAME@,
            ),
        }
    }

    pub open spec fn sessions_dir(self) -> Seq<char> {
        joined_path(self.data_dir(), "sessions"@)
    }

    pub open spec fn session_dir(self, id: Seq<char>) -> Seq<char> {
        joined_path(self.sessions_dir(), id)
    }

    /// The runtime directory that the system gives a user.
    pub open spec fn user_runtime(self) -> Seq<char> {
        joined_path("/run/user"@, text::decimal(self.uid as nat))
    }

    /// The runtime directory, or the message that there is none.
    pub open spec fn runtime(self, user_runtime_exists: bool) -> std::result::Result<
        Seq<char>,
        Seq<char>,
    > {
        match self.runtime_dir {
            Some(root) => Ok(joined_path(root, APP_NAME@)),
            None => if user_runtime_exists {
                Ok(joined_path(self.user_runtime(), APP_NAME@))
            } else {
                Err(
                    "XDG_RUNTIME_DIR is unset and "@ + self.user_runtime()
                        + " does not exist; cannot create the control socket directory"@,
                )
            },
        }
    }
}

impl Clone for PathResolver {
    fn clone(&self) -> (r: Self)
        ensures
            r@ == self@,
    {
        PathResolver {
            home: self.home.clone(),
            xdg_config_home: self.xdg_config_home.clone(),
            xdg_data_home: self.xdg_data_home.clone(),
            xdg_runtime_dir: self.xdg_runtime_dir.clone(),
            uid: self.uid,
        }
    }
}

impl PathResolver {
    /// The resolver for these values of the environment and this user.
    pub fn from_env(
        home: Option<String>,
        xdg_config_home: Option<String>,
        xdg_data_home: Option<String>,
        xdg_runtime_dir: Option<String>,
        uid: Result<u32>,
    ) -> (r: Result<Self>)
        ensures
            match (set_to(home), uid) {
                (None, _) => fails(
                    r,
                    ErrorKind::Path,
                    "HOME is not set; cannot resolve XDG directories"@,
                ),
                (_, Err(e)) => r matches Err(f) && f == e,
                (Some(home), Ok(uid)) => r matches Ok(p) && p@ == (Roots {
                    home,
                    config_home: set_to(xdg_config_home),
                    data_home: set_to(xdg_data_home),
                    runtime_dir: set_to(xdg_runtime_dir),
                    uid,
                }),
            },
    {
        let home = match env_path(home) {
            Some(home) => home,
            None => {
                return Err(
                    AppError::path("HOME is not set; cannot resolve XDG directories"),
                );
            },
        };
        match uid {
            Err(e) => Err(e),
            Ok(uid) => Ok(
                PathResolver {
                    home,
                    xdg_config_home: env_path(xdg_config_home),
                    xdg_data_home: env_path(xdg_data_home),
                    xdg_runtime_dir: env_path(xdg_runtime_dir),
                    uid,
                },
            ),
        }
    }

    pub fn from_parts(
        home: String,
        xdg_config_home: Option<String>,
        xdg_data_home: Option<String>,
        xdg_runtime_dir: Option<String>,
        uid: u32,
    ) -> (r: Self)
        ensures
            r@.home == home@,
            r@.config_home == text_of(xdg_config_home),
            r@.data_home == text_of(xdg_data_home),
            r@.runtime_dir == text_of(xdg_runtime_dir),
            r@.uid == uid,
    {
        PathResolver { home, xdg_config_home, xdg_data_home, xdg_runtime_dir, uid }
    }

    pub fn home(&self) -> (r: &str)
        ensures
            r@ == self@.home,
    {
        self.home.as_str()
    }

    pub fn config_dir(&self) -> (r: String)
        ensures
            r@ == self@.config_dir(),
    {
        match &self.xdg_config_home {
            Some(root) => join(root.as_str(), APP_NAME),
            None => join(join(self.home.as_str(), ".config").as_str(), APP_NAME),
        }
    }

    pub fn config_file(&self) -> (r: String)
        ensures
            r@ == joined_path(self@.config_dir(), "config.toml"@),
    {
        join(self.config_dir().as_str(), "config.toml")
    }

    pub fn data_dir(&self) -> (r: String)
        ensures
            r@ == self@.data_dir(),
    {
        match &self.xdg_data_home {
            Some(root) => join(root.as_str(), APP_NAME),
            None => join(
                join(join(self.home.as_str(), ".local").as_str(), "share").as_str(),
                APP_NAME,
            ),
        }
    }

    pub fn db_path(&self) -> (r: String)
        ensures
            r@ == joined_path(self@.data_dir(), "voxtype-meeting-service.db"@),
    {
        join(self.data_dir().as_str(), "voxtype-meeting-service.db")
    }

    pub fn sessions_dir(&self) -> (r: String)
        ensures
            r@ == self@.sessions_dir(),
    {
        join(self.data_dir().as_str(), "sessions")
    }

    pub fn session_dir(&self, session_id: &str) -> (r: String)
        ensures
            r@ == self@.session_dir(session_id@),
    {
        join(self.sessions_dir().as_str(), session_id)
    }

    pub fn models_dir(&self) -> (r: String)
        ensures
            r@ == joined_path(self@.data_dir(), "models"@),
    {
        join(self.data_dir().as_str(), "models")
    }

    /// The runtime directory that the system gives this user.
    pub fn user_runtime_dir(&self) -> (r: String)
        ensures
            r@ == self@.user_runtime(),
    {
        join("/run/user", text::decimal_of(self.uid as u64).as_str())
    }

    /// The runtime directory, given whether the system made one for this user.
    pub fn runtime_dir(&self, user_runtime_exists: bool) -> (r: Result<String>)
        ensures
            match self@.runtime(user_runtime_exists) {
                Ok(dir) => r matches Ok(d) && d@ == dir,
                Err(message) => fails(r, ErrorKind::Path, message),
            },
    {
        if let Some(root) = &self.xdg_runtime_dir {
            return Ok(join(root.as_str(), APP_NAME));
        }
        let user_runtime = self.user_runtime_dir();
        if user_runtime_exists {
            return Ok(join(user_runtime.as_str(), APP_NAME));
        }
        let message = text::concat3(
            "XDG_RUNTIME_DIR is unset and ",
            user_runtime.as_str(),
            " does not exist; cannot create the control socket directory",
        );
        Err(AppError::path(message.as_str()))
    }

    pub fn control_socket(&self, user_runtime_exists: bool) -> (r: Result<String>)
        ensures
            match self@.runtime(user_runtime_exists) {
                Ok(dir) => r matches Ok(d) && d@ == joined_path(
                    dir,
                    "voxtype-meeting-service.sock"@,
                ),
                Err(message) => fails(r, ErrorKind::Path, message),
            },
    {
        match self.runtime_dir(user_runtime_exists) {
            Ok(dir) => Ok(join(dir.as_str(), "voxtype-meeting-service.sock")),
            Err(e) => Err(e),
        }
    }
}

/// A path that is relative and not empty stays below the directory it is joined to.
pub proof fn law_joined_paths_stay_below(base: Seq<char>, path: Seq<char>)
    requires
        path.len() > 0,
        path[0] != '/',
    ensures
        text::has_prefix(joined_path(base, path), base),
        text::has_suffix(joined_path(base, path), path),
{
    reveal_strlit("/");
    let j = joined_path(base, path);
    assert(j.take(base.len() as int) =~= base);
    assert(j.skip(j.len() - path.len()) =~= path);
}

/// Every session has a directory of its own below the sessions directory.
pub proof fn law_session_dirs_are_distinct(roots: Roots, a: Seq<char>, b: Seq<char>)
    requires
        a.len() > 0,
        b.len() > 0,
        a[0] != '/',
        b[0] != '/',
        roots.session_dir(a) == roots.session_dir(b),
    ensures
        a == b,
{
    let base = roots.sessions_dir();
    let x = joined_path(base, a);
    let y = joined_path(base, b);
    reveal_strlit("/");
    assert(x.len() - a.len() == y.len() - b.len());
    assert(a =~= x.skip(x.len() - a.len()));
    assert(b =~= y.skip(y.len() - b.len()));
}

/// The number of a user in the text of `/proc/self/status`.
pub open spec fn uid_of(lines: Seq<Seq<char>>) -> std::result::Result<u32, Seq<char>>
    decreases lines.len(),
{
    if lines.len() == 0 {
        Err("could not determine current uid from /proc/self/status"@)
    } else {
        let line = lines[0];
        let words = text::words_of(line.skip(4));
        if text::has_prefix(line, "Uid:"@) && words.len() > 0 {
            match text::unsigned_value(words[0], u32::MAX as nat) {
                Some(uid) => Ok(uid as u32),
                None => Err("could not parse uid from /proc/self/status: "@ + words[0]),
            }
        } else {
            uid_of(lines.drop_first())
        }
    }
}

/// The number of the current user, out of the text of `/proc/self/status`.
pub fn current_uid(status: &str) -> (r: Result<u32>)
    ensures
        match uid_of(text::lines_of(status@)) {
            Ok(uid) => r matches Ok(u) && u == uid,
            Err(message) => fails(r, ErrorKind::Path, message),
        },
{
    let lines = text::lines(status);
    let ghost all = text::views(lines@);
    let mut i: usize = 0;
    proof {
        reveal_strlit("Uid:");
        assert(all.skip(0) =~= all);
    }
    while i < lines.len()
        invariant
            all == text::views(lines@),
            i <= lines.len(),
            "Uid:"@.len() == 4,
            uid_of(all) == uid_of(all.skip(i as int)),
            all == text::lines_of(status@),
        decreases lines.len() - i,
    {
        proof {
            assert(all.skip(i as int)[0] == lines@[i as int]@);
            assert(all.skip(i as int).drop_first() =~= all.skip(i + 1));
        }
        if let Some(rest) = text::strip_prefix(lines[i].as_str(), "Uid:") {
            let words = text::words(rest.as_str());
            if words.len() > 0 {
                assert(text::views(words@)[0] == words@[0]@);
                match text::parse_unsigned(words[0].as_str(), u32::MAX as u64) {
                    Some(uid) => {
                        return Ok(uid as u32);
                    },
                    None => {
                        let message = text::concat2(
                            "could not parse uid from /proc/self/status: ",
                            words[0].as_str(),
                        );
                        return Err(AppError::path(message.as_str()));
                    },
                }
            }
        }
        i += 1;
    }
    assert(all.skip(i as int) =~= Seq::empty());
    Err(AppError::path("could not determine current uid from /proc/self/status"))
}

/// Where the last `/` of a path stands, or -1.
pub open spec fn last_slash(s: Seq<char>) -> int
    decreases s.len(),
{
    if s.len() == 0 {
        -1
    } else if s.last() == '/' {
        s.len() - 1
    } else {
        last_slash(s.drop_last())
    }
}

/// A path without `/` and `/.` at its end, as far as something is left before them.
pub open spec fn without_tail(s: Seq<char>) -> Seq<char>
    decreases s.len(),
{
    if s.len() >= 2 && s.last() == '/' {
        without_tail(s.drop_last())
    } else if s.len() >= 2 && s.last() == '.' && s[s.len() - 2] == '/' {
        without_tail(s.drop_last())
    } else {
        s
    }
}

/// The directory that a path lies in. `None` for the root and for nothing.
pub open spec fn parent_of(path: Seq<char>) -> Option<Seq<char>> {
    let s = without_tail(path);
    if s.len() == 0 || s == "/"@ {
        None
    } else {
        Some(without_tail(s.take(last_slash(s) + 1)))
    }
}

fn tail_start(v: &Vec<char>, len: usize) -> (r: usize)
    requires
        len <= v@.len(),
    ensures
        r <= len,
        v@.take(r as int) == without_tail(v@.take(len as int)),
    decreases len,
{
    let ghost s = v@.take(len as int);
    if len >= 2 && (v[len - 1] == '/' || (v[len - 1] == '.' && v[len - 2] == '/')) {
        assert(s.drop_last() =~= v@.take(len - 1));
        tail_start(v, len - 1)
    } else {
        len
    }
}

proof fn lemma_last_slash(s: Seq<char>)
    ensures
        -1 <= last_slash(s) < s.len(),
    decreases s.len(),
{
    if s.len() > 0 && s.last() != '/' {
        lemma_last_slash(s.drop_last());
    }
}

/// The directory that a path lies in. `None` for the root and for nothing.
pub fn parent(path: &str) -> (r: Option<String>)
    ensures
        text_of(r) == parent_of(path@),
{
    proof {
        reveal_strlit("/");
        assert("/"@ =~= seq!['/']);
    }
    let v = text::chars_of(path);
    assert(v@.take(v@.len() as int) =~= path@);
    let end = tail_start(&v, v.len());
    let ghost s = v@.take(end as int);
    if end == 0 || (end == 1 && v[0] == '/') {
        assert(end == 1 ==> s =~= seq!['/']);
        return None;
    }
    assert(s != "/"@) by {
        if s == "/"@ {
            assert(s[0] == '/');
        }
    }
    let mut at: usize = end;
    while at > 0 && v[at - 1] != '/'
        invariant
            at <= end <= v@.len(),
            s == v@.take(end as int),
            last_slash(s) == last_slash(v@.take(at as int)),
        decreases at,
    {
        assert(v@.take(at as int).drop_last() =~= v@.take(at - 1));
        at -= 1;
    }
    proof {
        if at > 0 {
            assert(v@.take(at as int).last() == v@[at - 1]);
        }
        assert(last_slash(s) + 1 == at);
        assert(s.take(at as int) =~= v@.take(at as int));
    }
    let to = tail_start(&v, at);
    assert(v@.subrange(0, to as int) =~= v@.take(to as int));
    Some(text::string_of(&v, 0, to))
}

/// The parts of a path between its slashes.
pub open spec fn slash_parts(s: Seq<char>) -> Seq<Seq<char>>
    decreases s.len(),
{
    if s.len() == 0 {
        seq![Seq::empty()]
    } else {
        let before = slash_parts(s.drop_last());
        if s.last() == '/' {
            before.push(Seq::empty())
        } else {
            before.drop_last().push(before.last().push(s.last()))
        }
    }
}

/// Whether a part of a path names something.
pub open spec fn is_component() -> spec_fn(Seq<char>) -> bool {
    |part: Seq<char>| part.len() > 0 && part != "."@
}

/// The components of a path: its parts without those that are empty or say where one is
/// already, but for one at the very start.
pub open spec fn components_of(s: Seq<char>) -> Seq<Seq<char>> {
    let parts = slash_parts(s);
    if parts[0] == "."@ {
        seq!["."@] + parts.drop_first().filter(is_component())
    } else {
        parts.filter(is_component())
    }
}

pub open spec fn is_rooted(s: Seq<char>) -> bool {
    s.len() > 0 && s[0] == '/'
}

/// Whether a path lies below a directory or is the directory, component by component.
pub open spec fn lies_within(path: Seq<char>, dir: Seq<char>) -> bool {
    &&& is_rooted(path) == is_rooted(dir)
    &&& components_of(dir).is_prefix_of(components_of(path))
}

fn parts_between_slashes(path: &str) -> (r: Vec<String>)
    ensures
        text::views(r@) == slash_parts(path@),
        r@.len() > 0,
{
    let v = text::chars_of(path);
    let mut done: Vec<String> = Vec::new();
    let mut part = String::new();
    let mut i: usize = 0;
    proof {
        assert(v@.take(0) =~= Seq::empty());
        assert(text::views(done@).push(part@) =~= slash_parts(v@.take(0)));
    }
    while i < v.len()
        invariant
            i <= v@.len(),
            text::views(done@).push(part@) == slash_parts(v@.take(i as int)),
        decreases v.len() - i,
    {
        let ghost before = text::views(done@).push(part@);
        let ghost had = text::views(done@);
        assert(v@.take(i + 1).drop_last() =~= v@.take(i as int));
        assert(v@.take(i + 1).last() == v@[i as int]);
        assert(before.drop_last() =~= had);
        if v[i] == '/' {
            done.push(part);
            part = String::new();
            assert(text::views(done@) =~= before);
            assert(part@ =~= Seq::empty());
        } else {
            part.push(v[i]);
        }
        i += 1;
    }
    assert(v@.take(i as int) =~= path@);
    let ghost had = text::views(done@);
    let ghost last = part@;
    done.push(part);
    assert(text::views(done@) =~= had.push(last));
    done
}

fn components(path: &str) -> (r: Vec<String>)
    ensures
        text::views(r@) == components_of(path@),
{
    let parts = parts_between_slashes(path);
    let ghost all = text::views(parts@);
    let ghost p = is_component();
    let mut r: Vec<String> = Vec::new();
    let mut i: usize = 0;
    let dot = text::same(parts[0].as_str(), ".");
    assert(all[0] == parts@[0]@);
    if dot {
        r.push(".".to_owned());
        i = 1;
    }
    let ghost head = text::views(r@);
    let ghost start = i as int;
    proof {
        assert(all.subrange(start, start).filter(p) =~= Seq::empty()) by {
            reveal(Seq::filter);
        }
        assert(head + Seq::<Seq<char>>::empty() =~= head);
    }
    while i < parts.len()
        invariant
            0 <= start <= i <= parts@.len(),
            all == text::views(parts@),
            p == is_component(),
            text::views(r@) == head + all.subrange(start, i as int).filter(p),
        decreases parts.len() - i,
    {
        let ghost had = text::views(r@);
        proof {
            let now = all.subrange(start, i + 1);
            assert(now.drop_last() =~= all.subrange(start, i as int));
            assert(now.last() == parts@[i as int]@);
            reveal(Seq::filter);
        }
        if !parts[i].as_str().is_empty() && !text::same(parts[i].as_str(), ".") {
            r.push(parts[i].clone());
            assert(text::views(r@) =~= had.push(parts@[i as int]@));
            assert(head + all.subrange(start, i + 1).filter(p) =~= had.push(parts@[i as int]@));
        }
        i += 1;
    }
    proof {
        if dot {
            assert(all.subrange(1, all.len() as int) =~= all.drop_first());
            assert(head =~= seq!["."@]);
        } else {
            assert(all.subrange(0, all.len() as int) =~= all);
            assert(head =~= Seq::empty());
            assert(Seq::<Seq<char>>::empty() + all.filter(p) =~= all.filter(p));
        }
    }
    r
}

/// Whether a path lies below a directory or is the directory.
pub fn is_within(path: &str, dir: &str) -> (r: bool)
    ensures
        r == lies_within(path@, dir@),
{
    proof {
        reveal_strlit("/");
        assert("/"@ =~= seq!['/']);
        if path@.len() > 0 {
            assert(path@.take(1) =~= seq![path@[0]]);
            assert(path@.take(1)[0] == path@[0]);
        }
        if dir@.len() > 0 {
            assert(dir@.take(1) =~= seq![dir@[0]]);
            assert(dir@.take(1)[0] == dir@[0]);
        }
    }
    if text::starts_with(path, "/") != text::starts_with(dir, "/") {
        return false;
    }
    let a = components(path);
    let b = components(dir);
    if b.len() > a.len() {
        return false;
    }
    let mut i: usize = 0;
    while i < b.len()
        invariant
            i <= b@.len() <= a@.len(),
            text::views(a@) == components_of(path@),
            text::views(b@) == components_of(dir@),
            forall|k: int| 0 <= k < i ==> (#[trigger] b@[k])@ == a@[k]@,
        decreases b.len() - i,
    {
        if !text::same(a[i].as_str(), b[i].as_str()) {
            assert(text::views(a@)[i as int] != text::views(b@)[i as int]);
            assert(text::views(a@).subrange(0, b@.len() as int)[i as int] == a@[i as int]@);
            return false;
        }
        i += 1;
    }
    assert(text::views(a@).subrange(0, b@.len() as int) =~= text::views(b@));
    true
}

/// A path below a directory lies in that directory.
pub proof fn law_the_parent_of_a_path(dir: Seq<char>, name: Seq<char>)
    requires
        dir.len() > 0,
        dir.last() != '/',
        dir.last() != '.',
        name.len() > 0,
        name.last() != '.',
        !name.contains('/'),
    ensures
        parent_of(dir + "/"@ + name) == Some(dir),
{
    reveal_strlit("/");
    let s = dir + "/"@ + name;
    assert(name.contains(name.last()));
    assert(s.last() == name.last());
    assert(without_tail(s) == s);
    assert(s.len() >= 3);
    let at = dir.len() as int;
    assert(s[at] == '/');
    assert forall|i: int| at < i < s.len() implies s[i] != '/' by {
        assert(s[i] == name[i - at - 1]);
        assert(name.contains(name[i - at - 1]));
    }
    lemma_last_slash_at(s, at);
    let up = s.take(at + 1);
    assert(up.drop_last() =~= dir);
    assert(up.last() == '/');
    assert(without_tail(dir) == dir);
    assert(without_tail(up) == without_tail(dir));
}

proof fn lemma_last_slash_at(s: Seq<char>, at: int)
    requires
        0 <= at < s.len(),
        s[at] == '/',
        forall|i: int| at < i < s.len() ==> s[i] != '/',
    ensures
        last_slash(s) == at,
    decreases s.len(),
{
    if at < s.len() - 1 {
        assert(s[s.len() - 1] != '/');
        lemma_last_slash_at(s.drop_last(), at);
    }
}

/// A path is joined to a directory with one `/` between them; an absolute path stays.
pub proof fn law_paths_are_joined_with_a_slash(base: Seq<char>, path: Seq<char>)
    ensures
        path.len() > 0 && path[0] == '/' ==> joined_path(base, path) == path,
        base.len() > 0 && base.last() != '/' && !(path.len() > 0 && path[0] == '/')
            ==> joined_path(base, path) == base + seq!['/'] + path,
        base.len() > 0 && base.last() == '/' && !(path.len() > 0 && path[0] == '/')
            ==> joined_path(base, path) == base + path,
{
    reveal_strlit("/");
    assert("/"@ =~= seq!['/']);
}

/// Where things are kept: in the directories that the environment names, or else below the
/// home directory.
pub proof fn law_where_things_are_kept(roots: Roots, id: Seq<char>)
    requires
        roots.home.len() > 0,
        roots.home.last() != '/',
        id.len() > 0,
        id[0] != '/',
    ensures
        roots.config_home is None ==> roots.config_dir() == roots.home
            + "/.config/voxtype-meeting-service"@,
        roots.config_home matches Some(root) ==> (root.len() > 0 && root.last() != '/'
            ==> roots.config_dir() == root + "/voxtype-meeting-service"@),
        roots.data_home is None ==> roots.data_dir() == roots.home
            + "/.local/share/voxtype-meeting-service"@,
        roots.data_home matches Some(root) ==> (root.len() > 0 && root.last() != '/'
            ==> roots.data_dir() == root + "/voxtype-meeting-service"@),
        roots.data_home is None ==> roots.session_dir(id) == roots.data_dir() + "/sessions/"@ + id,
        roots.runtime_dir matches Some(root) ==> (root.len() > 0 && root.last() != '/'
            ==> roots.runtime(false) == Ok::<Seq<char>, Seq<char>>(
            root + "/voxtype-meeting-service"@,
        )),
        roots.runtime_dir is None ==> (roots.runtime(true) is Ok && roots.runtime(false) is Err),
{
    reveal_strlit("/");
    reveal_strlit(".config");
    reveal_strlit(".local");
    reveal_strlit("share");
    reveal_strlit("sessions");
    reveal_strlit("/sessions/");
    reveal_strlit("voxtype-meeting-service");
    reveal_strlit("/voxtype-meeting-service");
    reveal_strlit("/.config/voxtype-meeting-service");
    reveal_strlit("/.local/share/voxtype-meeting-service");
    let app = APP_NAME@;
    assert(app == "voxtype-meeting-service"@);
    assert(app.last() == 'e');
    if roots.config_home is None {
        assert(joined_path(roots.home, ".config"@) =~= roots.home + "/"@ + ".config"@);
        assert(joined_path(roots.home, ".config"@).last() == 'g');
        assert(roots.config_dir() =~= roots.home + "/.config/voxtype-meeting-service"@);
    } else {
        let root = roots.config_home->0;
        if root.len() > 0 && root.last() != '/' {
            assert(roots.config_dir() =~= root + "/voxtype-meeting-service"@);
        }
    }
    if roots.data_home is None {
        let local = joined_path(roots.home, ".local"@);
        assert(local =~= roots.home + "/"@ + ".local"@);
        assert(local.last() == 'l');
        let share = joined_path(local, "share"@);
        assert(share =~= local + "/"@ + "share"@);
        assert(share.last() == 'e');
        assert(roots.data_dir() =~= roots.home + "/.local/share/voxtype-meeting-service"@);
        assert(roots.data_dir().last() == 'e');
        assert(roots.sessions_dir() =~= roots.data_dir() + "/"@ + "sessions"@);
        assert(roots.sessions_dir().last() == 's');
        assert(roots.session_dir(id) =~= roots.data_dir() + "/sessions/"@ + id);
    } else {
        let root = roots.data_home->0;
        if root.len() > 0 && root.last() != '/' {
            assert(roots.data_dir() =~= root + "/voxtype-meeting-service"@);
        }
    }
    if let Some(root) = roots.runtime_dir {
        if root.len() > 0 && root.last() != '/' {
            assert(joined_path(root, app) =~= root + "/voxtype-meeting-service"@);
        }
    }
}

proof fn lemma_parts_of_joined(a: Seq<char>, b: Seq<char>)
    ensures
        slash_parts(a + seq!['/'] + b) == slash_parts(a) + slash_parts(b),
        slash_parts(b).len() > 0,
    decreases b.len(),
{
    let s = a + seq!['/'] + b;
    if b.len() == 0 {
        assert(s.drop_last() =~= a);
        assert(slash_parts(s) =~= slash_parts(a) + slash_parts(b));
    } else {
        let c = b.drop_last();
        lemma_parts_of_joined(a, c);
        assert(s.drop_last() =~= a + seq!['/'] + c);
        assert(s.last() == b.last());
        let before = slash_parts(a) + slash_parts(c);
        assert(before.last() == slash_parts(c).last());
        assert(before.drop_last() =~= slash_parts(a) + slash_parts(c).drop_last());
        assert(slash_parts(s) =~= slash_parts(a) + slash_parts(b));
    }
}

proof fn lemma_some_part(s: Seq<char>)
    ensures
        slash_parts(s).len() > 0,
    decreases s.len(),
{
    if s.len() > 0 {
        lemma_some_part(s.drop_last());
    }
}

/// Whatever stands behind a directory and a `/` lies in the directory, and so does the
/// directory itself. What is rooted does not lie in what is not.
pub proof fn law_what_lies_in_a_directory(dir: Seq<char>, rest: Seq<char>)
    requires
        dir.len() > 0,
    ensures
        lies_within(dir + seq!['/'] + rest, dir),
        lies_within(dir, dir),
        dir[0] != '/' ==> !lies_within(seq!['/'] + rest, dir),
{
    let path = dir + seq!['/'] + rest;
    lemma_parts_of_joined(dir, rest);
    lemma_some_part(dir);
    let a = slash_parts(dir);
    let b = slash_parts(rest);
    assert(path[0] == dir[0]);
    assert(slash_parts(path)[0] == a[0]);
    if a[0] == "."@ {
        Seq::filter_distributes_over_add(a.drop_first(), b, is_component());
        assert((a + b).drop_first() =~= a.drop_first() + b);
    } else {
        Seq::filter_distributes_over_add(a, b, is_component());
    }
    let outer = components_of(dir);
    let inner = components_of(path);
    assert(inner =~= outer + b.filter(is_component()));
    assert(outer =~= inner.subrange(0, outer.len() as int));
    assert(outer =~= outer.subrange(0, outer.len() as int));
}

/// A setting of the environment that is empty is none.
pub proof fn law_empty_settings_are_none(value: String)
    ensures
        value@.len() > 0 ==> set_to(Some(value)) == Some(value@),
        value@.len() == 0 ==> set_to(Some(value)) is None,
        set_to(None) is None,
{
}

/// The user is the first number behind `Uid:`, on the first line that begins so.
pub proof fn law_the_user_is_read_from_the_status(lines: Seq<Seq<char>>, i: int)
    requires
        0 <= i < lines.len(),
        text::has_prefix(lines[i], "Uid:"@),
        text::words_of(lines[i].skip(4)).len() > 0,
        forall|k: int| 0 <= k < i ==> !text::has_prefix(#[trigger] lines[k], "Uid:"@),
    ensures
        ({
            let word = text::words_of(lines[i].skip(4))[0];
            match text::unsigned_value(word, 4_294_967_295) {
                Some(uid) => uid_of(lines) == Ok::<u32, Seq<char>>(uid as u32),
                None => uid_of(lines) is Err,
            }
        }),
    decreases i,
{
    if i > 0 {
        assert(!text::has_prefix(lines[0], "Uid:"@));
        let rest = lines.drop_first();
        assert forall|k: int| 0 <= k < i - 1 implies !text::has_prefix(
            #[trigger] rest[k],
            "Uid:"@,
        ) by {
            assert(rest[k] == lines[k + 1]);
        }
        assert(rest[i - 1] == lines[i]);
        law_the_user_is_read_from_the_status(rest, i - 1);
    }
}

} // verus!
