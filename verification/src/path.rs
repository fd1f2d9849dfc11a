//! How a database path given by the caller is turned into the one SQLite opens.

use vstd::prelude::*;

verus! {

/// The path that asks for a database in memory.
pub const MEMORY_PATH: &'static str = ":memory:";

/// The address of the one in-memory database that all connections share.
pub const SHARED_MEMORY_URI: &'static str = "file:memdb?mode=memory&cache=shared";

/// What an address of a shared in-memory database starts with.
pub const SHARED_MEMORY_PREFIX: &'static str = "file:memdb";

/// The path that is opened for `db_path`: the shared in-memory database for
/// `:memory:`, and any other path as it stands.
pub open spec fn resolved_path(db_path: Seq<char>) -> Seq<char> {
    if db_path == MEMORY_PATH@ {
        SHARED_MEMORY_URI@
    } else {
        db_path
    }
}

/// Whether a path is that of a shared in-memory database.
pub open spec fn names_shared_memory(path: Seq<char>) -> bool {
    SHARED_MEMORY_PREFIX@.is_prefix_of(path)
}

/// Whether `text` starts with `prefix`.
fn starts_with(text: &str, prefix: &str) -> (yes: bool)
    ensures
        yes == prefix@.is_prefix_of(text@),
{
    let len: usize = prefix.unicode_len();
    if text.unicode_len() < len {
        return false;
    }
    let mut i: usize = 0;
    while i < len
        invariant
            i <= len == prefix@.len() <= text@.len(),
            prefix@.take(i as int) == text@.take(i as int),
        decreases len - i,
    {
        if text.get_char(i) != prefix.get_char(i) {
            proof {
                assert(prefix@[i as int] != text@.take(len as int)[i as int]);
            }
            return false;
        }
        proof {
            assert(prefix@.take(i + 1) =~= prefix@.take(i as int).push(prefix@[i as int]));
            assert(text@.take(i + 1) =~= text@.take(i as int).push(text@[i as int]));
        }
        i += 1;
    }
    proof {
        assert(prefix@.take(len as int) =~= prefix@);
    }
    true
}

/// The path to open for `db_path`.
pub fn resolve_db_path(db_path: &str) -> (path: String)
    ensures
        path@ == resolved_path(db_path@),
        db_path@ != ":memory:"@ ==> path@ == db_path@,
        db_path@ == ":memory:"@ ==> path@ == "file:memdb?mode=memory&cache=shared"@,
{
    let len: usize = MEMORY_PATH.unicode_len();
    if db_path.unicode_len() == len && starts_with(db_path, MEMORY_PATH) {
        proof {
            assert(db_path@.take(len as int) =~= db_path@);
        }
        SHARED_MEMORY_URI.to_owned()
    } else {
        db_path.to_owned()
    }
}

/// Whether `path` is that of a shared in-memory database.
pub fn is_shared_memory(path: &str) -> (yes: bool)
    ensures
        yes == names_shared_memory(path@),
        yes == "file:memdb"@.is_prefix_of(path@),
{
    starts_with(path, SHARED_MEMORY_PREFIX)
}

/// `:memory:` always ends up as a shared in-memory database.
pub proof fn law_memory_is_shared()
    ensures
        names_shared_memory(resolved_path(MEMORY_PATH@)),
{
    reveal_strlit("file:memdb?mode=memory&cache=shared");
    reveal_strlit("file:memdb");
    assert(SHARED_MEMORY_PREFIX@ =~= SHARED_MEMORY_URI@.take(10));
}

/// Resolving a path that has been resolved changes nothing.
pub proof fn law_resolution_is_stable(db_path: Seq<char>)
    ensures
        resolved_path(resolved_path(db_path)) == resolved_path(db_path),
{
}

/// A path is opened as it is given, character for character, unless it is
/// `:memory:`, which is opened as the shared in-memory database.
pub proof fn law_only_memory_is_rewritten(db_path: Seq<char>)
    ensures
        db_path != ":memory:"@ ==> resolved_path(db_path) == db_path,
        db_path == ":memory:"@ ==> resolved_path(db_path) == "file:memdb?mode=memory&cache=shared"@,
{
}

/// No two paths are opened as the same database, except `:memory:` and the
/// address of the shared in-memory database itself.
pub proof fn law_paths_stay_apart(one: Seq<char>, other: Seq<char>)
    requires
        one != other,
        resolved_path(one) == resolved_path(other),
    ensures
        resolved_path(one) == "file:memdb?mode=memory&cache=shared"@,
        one == ":memory:"@ || other == ":memory:"@,
{
}

/// Exactly the paths that start with `file:memdb` are in-memory databases.
pub proof fn law_shared_memory_by_prefix(rest: Seq<char>, path: Seq<char>)
    ensures
        names_shared_memory("file:memdb"@ + rest),
        names_shared_memory(path) ==> path.len() >= 10 && path.take(10) == "file:memdb"@,
{
    reveal_strlit("file:memdb");
    assert("file:memdb"@ =~= ("file:memdb"@ + rest).take(10));
}

} // verus!
