//! Paths, whose components a slash separates, and the conversations they name.

use vstd::prelude::*;
use crate::adapter::Adapter;
use crate::adapter::SessionView;
use crate::table::NameSet;
use crate::table::Table;
use crate::text;

verus! {

/// `path` seen from `base`: itself where it is absolute, else joined to `base` by a slash.
pub open spec fn join_path(base: Seq<char>, path: Seq<char>) -> Seq<char> {
    if base.len() == 0 || (path.len() > 0 && path[0] == '/') {
        path
    } else if base.last() == '/' {
        base + path
    } else {
        base.push('/') + path
    }
}

/// Where the components of a path begin: after the slash of an absolute path, or after the
/// dot of one that begins with the current directory.
pub open spec fn body_start(path: Seq<char>) -> nat {
    if path.len() > 0 && path[0] == '/' {
        1
    } else if path.len() > 0 && path[0] == '.' && (path.len() == 1 || path[1] == '/') {
        1
    } else {
        0
    }
}

/// The number of characters of the last component, not before `start`.
pub open spec fn tail_length(path: Seq<char>, start: nat) -> nat
    decreases path.len(),
{
    if path.len() <= start || path.last() == '/' {
        0
    } else {
        1 + tail_length(path.drop_last(), start)
    }
}

/// `path` without its last component and the slash before it.
pub open spec fn without_tail(path: Seq<char>, start: nat) -> Seq<char> {
    let kept = path.len() - tail_length(path, start);
    if kept > start {
        path.take(kept - 1)
    } else {
        path.take(kept)
    }
}

/// `path` up to its last component that says something: an empty component, and one that
/// is a dot, say nothing.
pub open spec fn trim_path(path: Seq<char>, start: nat) -> Seq<char>
    decreases path.len(),
    via trim_path_shrinks
{
    let n = tail_length(path, start);
    if path.len() > start && (n == 0 || path.skip(path.len() - n) == "."@) {
        trim_path(without_tail(path, start), start)
    } else {
        path
    }
}

#[via_fn]
proof fn trim_path_shrinks(path: Seq<char>, start: nat) {
    lemma_tail(path, start);
    reveal_strlit(".");
}

/// The last component of `path`, where it names a file or a directory.
pub open spec fn file_name(path: Seq<char>) -> Option<Seq<char>> {
    let start = body_start(path);
    let trimmed = trim_path(path, start);
    let name = trimmed.skip(trimmed.len() - tail_length(trimmed, start));
    if trimmed.len() <= start || name == ".."@ {
        None
    } else {
        Some(name)
    }
}

/// `path` with its last component replaced by `name`, or followed by it where the last
/// component names nothing.
pub open spec fn with_file_name(path: Seq<char>, name: Seq<char>) -> Seq<char> {
    let start = body_start(path);
    if file_name(path) is Some {
        join_path(trim_path(without_tail(trim_path(path, start), start), start), name)
    } else {
        join_path(path, name)
    }
}

/// The conversation that a file of this name holds: what stands before the extension `db`.
pub open spec fn conversation_of(name: Seq<char>) -> Option<Seq<char>> {
    if name.len() > 3 && name.skip(name.len() - 3) == ".db"@ {
        Some(name.take(name.len() - 3))
    } else {
        None
    }
}

proof fn lemma_tail(path: Seq<char>, start: nat)
    ensures
        tail_length(path, start) <= path.len(),
        path.len() > start ==> tail_length(path, start) <= path.len() - start,
        path.len() - tail_length(path, start) > start ==> path[path.len() - tail_length(
            path,
            start,
        ) - 1] == '/',
    decreases path.len(),
{
    if path.len() > start && path.last() != '/' {
        lemma_tail(path.drop_last(), start);
    }
}

/// The number of characters of the last component of the first `end` characters.
fn tail(chars: &Vec<char>, end: usize, start: usize) -> (r: usize)
    requires
        end <= chars@.len(),
    ensures
        r == tail_length(chars@.take(end as int), start as nat),
        r <= end,
{
    let ghost path = chars@.take(end as int);
    let mut kept: usize = end;
    assert(path.take(end as int) == path);
    while kept > start && chars[kept - 1] != '/'
        invariant
            kept <= end <= chars@.len(),
            path == chars@.take(end as int),
            tail_length(path, start as nat) == (end - kept) + tail_length(
                path.take(kept as int),
                start as nat,
            ),
        decreases kept,
    {
        assert(path.take(kept as int).last() == chars@[kept - 1]);
        assert(path.take(kept as int).drop_last() == path.take(kept - 1));
        kept -= 1;
    }
    proof {
        if kept > start {
            assert(path.take(kept as int).last() == chars@[kept - 1]);
        }
    }
    end - kept
}

/// The length of the first `end` characters without their last component.
fn without_tail_length(chars: &Vec<char>, end: usize, start: usize) -> (r: usize)
    requires
        end <= chars@.len(),
    ensures
        r <= end,
        chars@.take(r as int) == without_tail(chars@.take(end as int), start as nat),
{
    let kept: usize = end - tail(chars, end, start);
    let ghost path = chars@.take(end as int);
    if kept > start {
        assert(path.take(kept - 1) == chars@.take(kept - 1));
        kept - 1
    } else {
        assert(path.take(kept as int) == chars@.take(kept as int));
        kept
    }
}

/// The length of the first `limit` characters up to the last component that says
/// something.
fn trim_path_length(chars: &Vec<char>, limit: usize, start: usize) -> (r: usize)
    requires
        limit <= chars@.len(),
    ensures
        r <= limit,
        chars@.take(r as int) == trim_path(chars@.take(limit as int), start as nat),
{
    let mut end: usize = limit;
    loop
        invariant
            end <= limit <= chars@.len(),
            trim_path(chars@.take(end as int), start as nat) == trim_path(
                chars@.take(limit as int),
                start as nat,
            ),
        decreases end,
    {
        let n = tail(chars, end, start);
        let ghost path = chars@.take(end as int);
        proof {
            reveal_strlit(".");
            lemma_tail(path, start as nat);
            let last = path.skip(end - n);
            assert(last.len() == n);
            if n == 1 && chars@[end - 1] == '.' {
                assert(last =~= "."@);
            }
            if last == "."@ {
                assert(last[0] == chars@[end - 1]);
            }
        }
        if end > start && (n == 0 || (n == 1 && chars[end - 1] == '.')) {
            end = without_tail_length(chars, end, start);
        } else {
            return end;
        }
    }
}

/// `path` seen from `base`.
pub fn joined_path(base: &str, path: &str) -> (r: String)
    ensures
        r@ == join_path(base@, path@),
{
    let b = text::chars_of(base);
    let p = text::chars_of(path);
    if b.len() == 0 || (p.len() > 0 && p[0] == '/') {
        return path.to_owned();
    }
    let mut r = base.to_owned();
    if b[b.len() - 1] != '/' {
        r.push('/');
    }
    r.append(path);
    r
}

/// `path` with its last component replaced by `name`.
pub fn renamed(path: &str, name: &str) -> (r: String)
    ensures
        r@ == with_file_name(path@, name@),
{
    let chars = text::chars_of(path);
    let n = chars.len();
    assert(chars@.take(n as int) == path@);
    let start: usize = if n > 0 && (chars[0] == '/' || (chars[0] == '.' && (n == 1 || chars[1]
        == '/'))) {
        1
    } else {
        0
    };
    let end = trim_path_length(&chars, n, start);
    let ghost trimmed = trim_path(path@, start as nat);
    assert(trimmed == chars@.take(end as int));
    let size = tail(&chars, end, start);
    proof {
        reveal_strlit("..");
        lemma_tail(trimmed, start as nat);
        let last = trimmed.skip(end - size);
        assert(last.len() == size);
        if size == 2 && chars@[end - 1] == '.' && chars@[end - 2] == '.' {
            assert(last =~= ".."@);
        }
        if last == ".."@ {
            assert(last[0] == chars@[end - 2] && last[1] == chars@[end - 1]);
        }
    }
    if end <= start || (size == 2 && chars[end - 1] == '.' && chars[end - 2] == '.') {
        return joined_path(path, name);
    }
    let parent = without_tail_length(&chars, end, start);
    let parent = trim_path_length(&chars, parent, start);
    assert(chars@.subrange(0, parent as int) == chars@.take(parent as int));
    let dir = text::string_of(&chars, 0, parent);
    joined_path(dir.as_str(), name)
}

/// The conversation that a file of this name holds.
pub fn conversation_name(name: &str) -> (r: Option<String>)
    ensures
        text::opt_text(r) == conversation_of(name@),
{
    let chars = text::chars_of(name);
    let n = chars.len();
    proof {
        reveal_strlit(".db");
        if n > 3 {
            let ending = name@.skip(n - 3);
            assert(ending =~= seq![chars@[n - 3], chars@[n - 2], chars@[n - 1]]);
            if chars@[n - 3] == '.' && chars@[n - 2] == 'd' && chars@[n - 1] == 'b' {
                assert(ending =~= ".db"@);
            }
            if ending == ".db"@ {
                assert(ending[0] == '.' && ending[1] == 'd' && ending[2] == 'b');
            }
        }
    }
    if n > 3 && chars[n - 3] == '.' && chars[n - 2] == 'd' && chars[n - 1] == 'b' {
        assert(chars@.subrange(0, n - 3) == name@.take(n - 3));
        Some(text::string_of(&chars, 0, n - 3))
    } else {
        None
    }
}

/// The conversations that a directory with these files holds.
pub open spec fn conversations(names: Seq<Seq<char>>) -> Set<Seq<char>> {
    Set::new(
        |c: Seq<char>|
            exists|i: int|
                0 <= i < names.len() && conversation_of(#[trigger] names[i]) == Some(c),
    )
}

/// Where the conversations of a user with this home directory stand.
pub open spec fn conversations_dir_of(home: Seq<char>) -> Seq<char> {
    join_path(home, ".gemini/antigravity-cli/conversations"@)
}

/// Where the state file of a user with this home directory stands.
pub open spec fn state_file_of(home: Seq<char>) -> Seq<char> {
    join_path(join_path(home, ".openab/agy-acp"@), "sessions.json"@)
}

impl Adapter {
    /// An adapter without sessions: its files stand under the home directory, and it works
    /// in the current one. Either is `/tmp` where it is not known.
    pub fn new(home: Option<&str>, current_dir: Option<&str>) -> (r: Adapter)
        ensures
            ({
                let home_dir = match home {
                    Some(h) => h@,
                    None => "/tmp"@,
                };
                &&& r.sessions@ == Map::<Seq<char>, SessionView>::empty()
                &&& r.working_dir@ == (match current_dir {
                    Some(d) => d@,
                    None => "/tmp"@,
                })
                &&& r.conversations_dir@ == conversations_dir_of(home_dir)
                &&& r.state_file@ == state_file_of(home_dir)
                &&& r.available_models is None
            }),
    {
        let home_dir = match home {
            Some(h) => h,
            None => "/tmp",
        };
        let state_dir = joined_path(home_dir, ".openab/agy-acp");
        let working_dir = match current_dir {
            Some(d) => d.to_owned(),
            None => "/tmp".to_owned(),
        };
        Adapter {
            sessions: Table::new(),
            working_dir,
            conversations_dir: joined_path(home_dir, ".gemini/antigravity-cli/conversations"),
            state_file: joined_path(state_dir.as_str(), "sessions.json"),
            available_models: None,
        }
    }

    /// The file that caches the models: beside the state file.
    pub fn models_cache_path(&self) -> (r: String)
        ensures
            r@ == with_file_name(self.state_file@, "models_cache.json"@),
    {
        renamed(self.state_file.as_str(), "models_cache.json")
    }

    /// The conversations that a directory with these files holds.
    pub fn conversation_snapshot(file_names: &Vec<String>) -> (r: NameSet)
        ensures
            r@ == conversations(text::texts(file_names@)),
    {
        let ghost names = text::texts(file_names@);
        let mut r = NameSet::new();
        let mut i: usize = 0;
        assert(r@ =~= conversations(names.take(0)));
        while i < file_names.len()
            invariant
                i <= file_names@.len(),
                names == text::texts(file_names@),
                r@ == conversations(names.take(i as int)),
            decreases file_names@.len() - i,
        {
            let ghost before = names.take(i as int);
            let ghost longer = names.take(i + 1);
            let name = file_names[i].as_str();
            assert(longer == before.push(name@));
            proof {
                lemma_conversations_push(before, name@);
            }
            if let Some(c) = conversation_name(name) {
                r.insert(c);
            }
            i += 1;
        }
        assert(names.take(i as int) == names);
        r
    }

    /// The conversation that came into being between two snapshots, where it is the only
    /// one.
    pub fn new_conversation_id(before: &NameSet, after: &NameSet) -> (r: Option<String>)
        ensures
            match r {
                Some(c) => after@.difference(before@) == set![c@],
                None => forall|c: Seq<char>| after@.difference(before@) != #[trigger] set![c],
            },
    {
        let created = after.difference(before);
        if created.len() == 1 {
            let c = created[0].clone();
            proof {
                let made = text::texts(created@);
                assert(made.to_set() =~= set![c@]) by {
                    assert(made[0] == c@);
                }
            }
            Some(c)
        } else {
            proof {
                let made = text::texts(created@);
                assert forall|c: Seq<char>| after@.difference(before@) != #[trigger] set![c] by {
                    if made.to_set() == set![c] {
                        assert(set![c].contains(c));
                        if made.len() > 1 {
                            assert(made.to_set().contains(made[0]));
                            assert(made.to_set().contains(made[1]));
                        } else {
                            assert(!made.to_set().contains(c));
                        }
                    }
                }
            }
            None
        }
    }
}

proof fn lemma_conversations_push(names: Seq<Seq<char>>, name: Seq<char>)
    ensures
        conversations(names.push(name)) == (match conversation_of(name) {
            Some(c) => conversations(names).insert(c),
            None => conversations(names),
        }),
{
    let longer = names.push(name);
    let expected = match conversation_of(name) {
        Some(c) => conversations(names).insert(c),
        None => conversations(names),
    };
    assert forall|c: Seq<char>| conversations(longer).contains(c) <==> expected.contains(c) by {
        if conversations(longer).contains(c) {
            let i = choose|i: int|
                0 <= i < longer.len() && conversation_of(#[trigger] longer[i]) == Some(c);
            if i < names.len() {
                assert(names[i] == longer[i]);
            }
        }
        if expected.contains(c) {
            if conversations(names).contains(c) {
                let i = choose|i: int|
                    0 <= i < names.len() && conversation_of(#[trigger] names[i]) == Some(c);
                assert(longer[i] == names[i]);
            } else {
                assert(longer[names.len() as int] == name);
            }
        }
    }
    assert(conversations(longer) =~= expected);
}

proof fn lemma_component(base: Seq<char>, name: Seq<char>, start: nat)
    requires
        start <= base.len(),
        base.len() == start || base.last() == '/',
        forall|i: int| 0 <= i < name.len() ==> #[trigger] name[i] != '/',
    ensures
        tail_length(base + name, start) == name.len(),
    decreases name.len(),
{
    let path = base + name;
    if name.len() == 0 {
        assert(path =~= base);
    } else {
        assert(path.drop_last() =~= base + name.drop_last());
        assert(path.last() == name[name.len() - 1]);
        lemma_component(base, name.drop_last(), start);
    }
}

/// A component of a path that says something.
pub open spec fn plain_component(name: Seq<char>) -> bool {
    &&& name.len() > 0
    &&& name != "."@
    &&& forall|i: int| 0 <= i < name.len() ==> #[trigger] name[i] != '/'
}

/// A file is renamed within its directory, which stays as it is.
pub proof fn files_are_renamed_in_their_directory(
    base: Seq<char>,
    last: Seq<char>,
    name: Seq<char>,
    renamed: Seq<char>,
)
    requires
        base.len() > 0 ==> base.last() == '/',
        plain_component(last),
        plain_component(name),
        name != ".."@,
    ensures
        with_file_name((base + last).push('/') + name, renamed) == join_path(
            base + last,
            renamed,
        ),
{
    reveal_strlit(".");
    assert("."@.len() == 1);
    let dir = base + last;
    let path = dir.push('/') + name;
    let start = body_start(path);
    assert(last[0] != '/');
    assert(path[0] == dir[0]);
    if base.len() == 0 {
        assert(dir =~= last);
        if last.len() == 1 {
            if last[0] == '.' {
                assert(last =~= "."@);
            }
        } else {
            assert(path[1] == last[1]);
        }
    }
    assert(start <= base.len());
    lemma_component(dir.push('/'), name, start);
    assert(path.skip(path.len() - name.len()) =~= name);
    assert(trim_path(path, start) == path);
    assert(without_tail(path, start) =~= dir);
    lemma_component(base, last, start);
    assert(dir.skip(dir.len() - last.len()) =~= last);
    assert(trim_path(dir, start) == dir);
}

/// The state file stands in the directory `.openab/agy-acp` of the home directory, and the
/// models are cached beside it; the conversations stand under the home directory too.
pub proof fn files_stand_under_the_home_directory(home: Seq<char>)
    requires
        home.len() > 0,
        home.last() != '/',
    ensures
        state_file_of(home) == home + "/.openab/agy-acp/sessions.json"@,
        conversations_dir_of(home) == home + "/.gemini/antigravity-cli/conversations"@,
        with_file_name(state_file_of(home), "models_cache.json"@) == home
            + "/.openab/agy-acp/models_cache.json"@,
{
    reveal_strlit(".openab/agy-acp");
    reveal_strlit("sessions.json");
    reveal_strlit("models_cache.json");
    reveal_strlit(".gemini/antigravity-cli/conversations");
    reveal_strlit("/.openab/agy-acp/sessions.json");
    reveal_strlit("/.openab/agy-acp/models_cache.json");
    reveal_strlit("/.gemini/antigravity-cli/conversations");
    assert(state_file_of(home) =~= home + "/.openab/agy-acp/sessions.json"@);
    assert(conversations_dir_of(home) =~= home + "/.gemini/antigravity-cli/conversations"@);
    models_are_cached_beside_the_sessions(home);
    let dir = join_path(home, ".openab/agy-acp"@);
    assert(join_path(dir, "models_cache.json"@) =~= home + "/.openab/agy-acp/models_cache.json"@);
}

/// The models are cached in the directory of the state file.
pub proof fn models_are_cached_beside_the_sessions(home: Seq<char>)
    ensures
        ({
            let dir = join_path(home, ".openab/agy-acp"@);
            with_file_name(state_file_of(home), "models_cache.json"@) == join_path(
                dir,
                "models_cache.json"@,
            )
        }),
{
    reveal_strlit(".openab/agy-acp");
    reveal_strlit("sessions.json");
    reveal_strlit("models_cache.json");
    reveal_strlit(".");
    reveal_strlit("..");
    let dir = join_path(home, ".openab/agy-acp"@);
    let n = dir.len() - 7;
    let last = dir.skip(n);
    assert(dir =~= dir.take(n) + last);
    assert(last.len() == 7 && "."@.len() == 1 && ".."@.len() == 2);
    assert("sessions.json"@.len() == 13);
    assert(plain_component(last));
    files_are_renamed_in_their_directory(
        dir.take(n),
        last,
        "sessions.json"@,
        "models_cache.json"@,
    );
    assert(state_file_of(home) =~= dir.push('/') + "sessions.json"@);
}

/// A relative path is appended to the directory it is seen from, with one slash between; an
/// absolute one is itself.
pub proof fn paths_are_joined_by_a_slash(base: Seq<char>, path: Seq<char>)
    ensures
        path.len() > 0 && path[0] == '/' ==> join_path(base, path) == path,
        (path.len() == 0 || path[0] != '/') && base.len() == 0 ==> join_path(base, path) == path,
        (path.len() == 0 || path[0] != '/') && base.len() > 0 && base.last() != '/'
            ==> join_path(base, path) == base + seq!['/'] + path,
        (path.len() == 0 || path[0] != '/') && base.len() > 0 && base.last() == '/'
            ==> join_path(base, path) == base + path,
{
    assert(base.push('/') =~= base + seq!['/']);
}

/// The conversations of a directory are exactly those for which it has the file of that
/// name with the extension `db`.
pub proof fn snapshots_hold_the_databases(names: Seq<Seq<char>>, conversation: Seq<char>)
    ensures
        conversations(names).contains(conversation) <==> conversation.len() > 0
            && names.contains(conversation + ".db"@),
{
    reveal_strlit(".db");
    let file = conversation + ".db"@;
    if conversations(names).contains(conversation) {
        let i = choose|i: int|
            0 <= i < names.len() && conversation_of(#[trigger] names[i]) == Some(conversation);
        let name = names[i];
        assert(name =~= name.take(name.len() - 3) + name.skip(name.len() - 3));
    }
    if conversation.len() > 0 && names.contains(file) {
        let i = choose|i: int| 0 <= i < names.len() && names[i] == file;
        assert(file.skip(file.len() - 3) =~= ".db"@);
        assert(file.take(file.len() - 3) =~= conversation);
        assert(conversation_of(names[i]) == Some(conversation));
    }
}

} // verus!
