//! The managed block that the post-commit hook holds.

use vstd::prelude::*;

use crate::pet::PetScope;
use crate::text::{
    chars_of, find, find_from, first_occurrence, lemma_first_occurrence_at, lemma_first_occurrence_found,
    lemma_first_occurrence_none,
    lemma_occurs_in_suffix, occurs_at, push_char, push_str, string_of,
};

verus! {

/// First line of the managed block.
pub open spec fn hook_begin() -> Seq<char> {
    "# commitchi hook begin"@
}

/// Last line of the managed block.
pub open spec fn hook_end() -> Seq<char> {
    "# commitchi hook end"@
}

/// The managed block for a scope: it runs the recording command when the
/// program is installed.
pub open spec fn managed_block_text(scope: PetScope) -> Seq<char> {
    hook_begin() + "\nif command -v commitchi >/dev/null 2>&1; then\n  commitchi hook post-commit --scope "@
        + scope.name() + "\nfi\n"@ + hook_end() + "\n"@
}

pub fn managed_block(scope: PetScope) -> (b: String)
    ensures
        b@ == managed_block_text(scope),
{
    let mut b = String::new();
    push_str(&mut b, "# commitchi hook begin");
    push_str(&mut b, "\nif command -v commitchi >/dev/null 2>&1; then\n  commitchi hook post-commit --scope ");
    push_str(&mut b, scope.as_str());
    push_str(&mut b, "\nfi\n");
    push_str(&mut b, "# commitchi hook end");
    push_str(&mut b, "\n");
    b
}

/// `existing` ended by a line break, then an empty line.
pub open spec fn appended_prefix(existing: Seq<char>) -> Seq<char> {
    let ended = if existing.len() > 0 && existing.last() == '\n' {
        existing
    } else {
        existing.push('\n')
    };
    ended.push('\n')
}

/// `existing` followed by the block, separated by an empty line.
pub open spec fn appended_block(existing: Seq<char>, block: Seq<char>) -> Seq<char> {
    appended_prefix(existing) + block
}

/// Hook text with its managed block put in place: the first block begin and
/// the first block end after it delimit the old block, which the new one
/// replaces together with the line break that follows it; a hook without a
/// complete block gets the block appended.
pub open spec fn upserted(existing: Seq<char>, block: Seq<char>) -> Seq<char> {
    match first_occurrence(existing, hook_begin()) {
        None => appended_block(existing, block),
        Some(start) => match first_occurrence(existing.skip(start), hook_end()) {
            None => appended_block(existing, block),
            Some(offset) => {
                let end0 = start + offset + hook_end().len();
                let end = if end0 < existing.len() && existing[end0] == '\n' {
                    end0 + 1
                } else {
                    end0
                };
                existing.take(start) + block + existing.skip(end)
            },
        },
    }
}

/// The hook text after installing `block` into the existing hook, if any: a
/// missing or empty hook becomes a shell script holding only the block.
pub open spec fn installed(existing: Option<Seq<char>>, block: Seq<char>) -> Seq<char> {
    match existing {
        Some(e) => if e.len() == 0 {
            "#!/bin/sh\n\n"@ + block
        } else {
            upserted(e, block)
        },
        None => "#!/bin/sh\n\n"@ + block,
    }
}

fn append_block(existing: &Vec<char>, block: &str) -> (r: String)
    ensures
        r@ == appended_block(existing@, block@),
{
    let mut r = string_of(existing);
    if !(existing.len() > 0 && existing[existing.len() - 1] == '\n') {
        push_char(&mut r, '\n');
    }
    push_char(&mut r, '\n');
    push_str(&mut r, block);
    r
}

fn copy_range(s: &Vec<char>, from: usize, to: usize) -> (r: String)
    requires
        from <= to <= s.len(),
    ensures
        r@ == s@.subrange(from as int, to as int),
{
    let mut r = String::new();
    let mut i = from;
    while i < to
        invariant
            from <= i <= to,
            to <= s.len(),
            r@ == s@.subrange(from as int, i as int),
        decreases to - i,
    {
        push_char(&mut r, s[i]);
        i = i + 1;
        assert(r@ =~= s@.subrange(from as int, i as int));
    }
    r
}

/// The first block end at or after `start`, as an offset into the rest of the hook.
fn find_block_end(e: &Vec<char>, end_marker: &Vec<char>, start: usize) -> (r: Option<usize>)
    requires
        start <= e.len(),
        end_marker@ == hook_end(),
    ensures
        match r {
            Some(at) => start <= at && first_occurrence(e@.skip(start as int), hook_end()) == Some(at - start)
                && at + hook_end().len() <= e.len(),
            None => first_occurrence(e@.skip(start as int), hook_end()) is None,
        },
{
    let found = find_from(e, end_marker, start);
    let ghost tail = e@.skip(start as int);
    proof {
        match found {
            None => {
                assert forall|j: int| 0 <= j implies !occurs_at(tail, hook_end(), j) by {
                    lemma_occurs_in_suffix(e@, hook_end(), start as int, j);
                }
                lemma_first_occurrence_none(tail, hook_end());
            },
            Some(at) => {
                let off = at - start;
                lemma_occurs_in_suffix(e@, hook_end(), start as int, off);
                assert forall|j: int| 0 <= j < off implies !occurs_at(tail, hook_end(), j) by {
                    lemma_occurs_in_suffix(e@, hook_end(), start as int, j);
                }
                lemma_first_occurrence_at(tail, hook_end(), off);
            },
        }
    }
    found
}

/// Puts `block` in place of the hook's managed block, or appends it.
pub fn upsert_managed_block(existing: &str, block: &str) -> (r: String)
    ensures
        r@ == upserted(existing@, block@),
{
    let e = chars_of(existing);
    let begin = chars_of("# commitchi hook begin");
    let end_marker = chars_of("# commitchi hook end");
    let start = match find(&e, &begin) {
        None => {
            return append_block(&e, block);
        },
        Some(start) => start,
    };
    let end_at = match find_block_end(&e, &end_marker, start) {
        None => {
            return append_block(&e, block);
        },
        Some(at) => at,
    };
    let mut end = end_at + end_marker.len();
    if end < e.len() && e[end] == '\n' {
        end = end + 1;
    }
    let mut r = copy_range(&e, 0, start);
    push_str(&mut r, block);
    let rest = copy_range(&e, end, e.len());
    push_str(&mut r, rest.as_str());
    assert(e@.subrange(0, start as int) =~= e@.take(start as int));
    assert(e@.subrange(end as int, e@.len() as int) =~= e@.skip(end as int));
    r
}

/// The hook text after installing `block`.
pub fn install_hook_contents(existing: Option<&str>, block: &str) -> (r: String)
    ensures
        r@ == installed(
            match existing {
                Some(e) => Some(e@),
                None => None,
            },
            block@,
        ),
{
    match existing {
        Some(e) => {
            if e.unicode_len() == 0 {
                let mut r = String::new();
                push_str(&mut r, "#!/bin/sh\n\n");
                push_str(&mut r, block);
                r
            } else {
                upsert_managed_block(e, block)
            }
        },
        None => {
            let mut r = String::new();
            push_str(&mut r, "#!/bin/sh\n\n");
            push_str(&mut r, block);
            r
        },
    }
}


/// No character of `s` is `#`.
pub open spec fn free_of_hash(s: Seq<char>) -> bool {
    forall|i: int| 0 <= i < s.len() ==> s[i] != '#'
}

proof fn lemma_block_text_shape(scope: PetScope)
    ensures
        ({
            let b = managed_block_text(scope);
            let off = b.len() - 21;
            &&& b.len() >= 43
            &&& b.subrange(0, 22) == hook_begin()
            &&& b[17] == 'b'
            &&& b.subrange(off, off + 20) == hook_end()
            &&& b[off + 20] == '\n'
            &&& forall|j: int| 1 <= j < off ==> b[j] != '#'
        }),
{
    reveal_strlit("# commitchi hook begin");
    reveal_strlit("# commitchi hook end");
    reveal_strlit("\nif command -v commitchi >/dev/null 2>&1; then\n  commitchi hook post-commit --scope ");
    reveal_strlit("\nfi\n");
    reveal_strlit("\n");
    reveal_strlit("repo");
    reveal_strlit("global");
    reveal_strlit("both");
    let mid = "\nif command -v commitchi >/dev/null 2>&1; then\n  commitchi hook post-commit --scope "@;
    assert(free_of_hash(mid));
    assert(free_of_hash(scope.name()));
    assert(free_of_hash("\nfi\n"@));
    assert(free_of_hash(hook_begin().skip(1)));
    let b = managed_block_text(scope);
    let off = b.len() - 21;
    assert(b.subrange(0, 22) =~= hook_begin());
    assert(b.subrange(off, off + 20) =~= hook_end());
    assert forall|j: int| 1 <= j < off implies b[j] != '#' by {
        let head = hook_begin() + mid + scope.name() + "\nfi\n"@;
        assert(b == head + hook_end() + "\n"@);
        assert(b[j] == head[j]);
        if j < 22 {
            assert(head[j] == hook_begin().skip(1)[j - 1]);
        } else if j < 22 + mid.len() {
            assert(head[j] == mid[j - 22]);
        } else if j < 22 + mid.len() + scope.name().len() {
            assert(head[j] == scope.name()[j - 22 - mid.len()]);
        } else {
            assert(head[j] == "\nfi\n"@[j - 22 - mid.len() - scope.name().len()]);
        }
    }
}


/// Installing a block into a hook whose first block begin opens a complete
/// managed block (of any scope) replaces exactly that block, and keeps the
/// text before and after it as it was.
pub proof fn lemma_install_replaces_block(
    before: Seq<char>,
    after: Seq<char>,
    old_scope: PetScope,
    new_scope: PetScope,
)
    requires
        forall|j: int| 0 <= j < before.len() ==> !#[trigger] occurs_at(before + hook_begin(), hook_begin(), j),
    ensures
        installed(
            Some(before + managed_block_text(old_scope) + after),
            managed_block_text(new_scope),
        ) == before + managed_block_text(new_scope) + after,
{
    lemma_block_text_shape(old_scope);
    let old_block = managed_block_text(old_scope);
    let block = managed_block_text(new_scope);
    let e = before + old_block + after;
    let start = before.len() as int;
    let off = old_block.len() - 21;
    assert(e.len() > 0);
    assert(e.subrange(start, start + 22) =~= old_block.subrange(0, 22));
    assert(occurs_at(e, hook_begin(), start));
    assert forall|j: int| 0 <= j < start implies !occurs_at(e, hook_begin(), j) by {
        assert(!occurs_at(before + hook_begin(), hook_begin(), j));
        if j + 22 <= e.len() {
            assert(e.subrange(j, j + 22) =~= (before + hook_begin()).subrange(j, j + 22));
        }
    }
    lemma_first_occurrence_at(e, hook_begin(), start);
    let tail = e.skip(start);
    assert(tail =~= old_block + after);
    assert(tail.subrange(off, off + 20) =~= old_block.subrange(off, off + 20));
    assert(occurs_at(tail, hook_end(), off));
    assert forall|j: int| 0 <= j < off implies !occurs_at(tail, hook_end(), j) by {
        reveal_strlit("# commitchi hook end");
        if j == 0 {
            assert(tail.subrange(0, 20)[17] == old_block[17]);
        } else {
            assert(tail.subrange(j, j + 20)[0] == old_block[j]);
        }
    }
    lemma_first_occurrence_at(tail, hook_end(), off);
    let end0 = start + off + 20;
    assert(e[end0] == old_block[off + 20]);
    assert(e.take(start) =~= before);
    assert(e.skip(end0 + 1) =~= after);
}


proof fn lemma_no_begin_before_block(before: Seq<char>, rest: Seq<char>)
    requires
        forall|j: int| 0 <= j < before.len() ==> !#[trigger] occurs_at(before + rest, hook_begin(), j),
        rest.len() >= 22,
        rest.subrange(0, 22) == hook_begin(),
    ensures
        forall|j: int| 0 <= j < before.len() ==> !#[trigger] occurs_at(before + hook_begin(), hook_begin(), j),
{
    assert forall|j: int| 0 <= j < before.len() implies !#[trigger] occurs_at(before + hook_begin(), hook_begin(), j) by {
        assert(!occurs_at(before + rest, hook_begin(), j));
        if j + 22 <= before.len() + 22 {
            assert((before + hook_begin()).subrange(j, j + 22) =~= (before + rest).subrange(j, j + 22));
        }
    }
}

proof fn lemma_shebang_has_no_begin()
    ensures
        forall|j: int| 0 <= j < "#!/bin/sh\n\n"@.len() ==> !#[trigger] occurs_at(
            "#!/bin/sh\n\n"@ + hook_begin(),
            hook_begin(),
            j,
        ),
{
    reveal_strlit("# commitchi hook begin");
    reveal_strlit("#!/bin/sh\n\n");
    let shebang = "#!/bin/sh\n\n"@;
    assert forall|j: int| 0 <= j < shebang.len() implies !#[trigger] occurs_at(shebang + hook_begin(), hook_begin(), j) by {
        if j == 0 {
            assert((shebang + hook_begin()).subrange(0, 22)[1] == '!');
        } else {
            assert((shebang + hook_begin()).subrange(j, j + 22)[0] == shebang[j]);
        }
    }
}

proof fn lemma_appended_has_no_begin(e: Seq<char>)
    requires
        first_occurrence(e, hook_begin()) is None,
    ensures
        forall|j: int| 0 <= j < appended_prefix(e).len() ==> !#[trigger] occurs_at(
            appended_prefix(e) + hook_begin(),
            hook_begin(),
            j,
        ),
{
    reveal_strlit("# commitchi hook begin");
    let before = appended_prefix(e);
    assert forall|j: int| 0 <= j < before.len() implies !#[trigger] occurs_at(before + hook_begin(), hook_begin(), j) by {
        let w = before + hook_begin();
        if occurs_at(w, hook_begin(), j) {
            if j + 22 <= e.len() {
                assert(e.subrange(j, j + 22) =~= w.subrange(j, j + 22));
                assert(occurs_at(e, hook_begin(), j));
            } else if j <= e.len() {
                assert(w.subrange(j, j + 22)[e.len() - j] == '\n');
            } else {
                assert(w.subrange(j, j + 22)[0] == '\n');
            }
        }
    }
}

proof fn lemma_replaced_has_no_begin(e: Seq<char>, s: int)
    requires
        first_occurrence(e, hook_begin()) == Some(s),
    ensures
        0 <= s && s + 22 <= e.len(),
        forall|j: int| 0 <= j < e.take(s).len() ==> !#[trigger] occurs_at(e.take(s) + hook_begin(), hook_begin(), j),
{
    reveal_strlit("# commitchi hook begin");
    lemma_first_occurrence_found(e, hook_begin());
    assert(e =~= e.take(s) + e.skip(s));
    assert(e.skip(s).subrange(0, 22) =~= e.subrange(s, s + 22));
    lemma_no_begin_before_block(e.take(s), e.skip(s));
}

proof fn lemma_reinstall_fresh(scope: PetScope)
    ensures
        installed(Some("#!/bin/sh\n\n"@ + managed_block_text(scope)), managed_block_text(scope))
            == "#!/bin/sh\n\n"@ + managed_block_text(scope),
{
    let shebang = "#!/bin/sh\n\n"@;
    lemma_shebang_has_no_begin();
    lemma_install_replaces_block(shebang, Seq::empty(), scope, scope);
    assert(shebang + managed_block_text(scope) + Seq::<char>::empty() =~= shebang + managed_block_text(scope));
}

proof fn lemma_reinstall_appended(e: Seq<char>, scope: PetScope)
    requires
        first_occurrence(e, hook_begin()) is None,
    ensures
        installed(Some(appended_prefix(e) + managed_block_text(scope)), managed_block_text(scope))
            == appended_prefix(e) + managed_block_text(scope),
{
    let before = appended_prefix(e);
    lemma_appended_has_no_begin(e);
    lemma_install_replaces_block(before, Seq::empty(), scope, scope);
    assert(before + managed_block_text(scope) + Seq::<char>::empty() =~= before + managed_block_text(scope));
}

#[verifier::rlimit(40)]
proof fn lemma_reinstall_replaced(e: Seq<char>, scope: PetScope)
    requires
        first_occurrence(e, hook_begin()) is Some,
        first_occurrence(e.skip(first_occurrence(e, hook_begin())->0), hook_end()) is Some,
    ensures
        installed(Some(upserted(e, managed_block_text(scope))), managed_block_text(scope))
            == upserted(e, managed_block_text(scope)),
{
    let s = first_occurrence(e, hook_begin())->0;
    lemma_replaced_has_no_begin(e, s);
    let off = first_occurrence(e.skip(s), hook_end())->0;
    let end0 = s + off + hook_end().len();
    let end = if end0 < e.len() && e[end0] == '\n' { end0 + 1 } else { end0 };
    assert(upserted(e, managed_block_text(scope)) == e.take(s) + managed_block_text(scope) + e.skip(end));
    lemma_install_replaces_block(e.take(s), e.skip(end), scope, scope);
}

/// Installing the same block a second time changes nothing, unless the hook
/// held a block begin with no block end after it (then the new block is
/// appended after the unfinished one, and the next install joins them).
pub proof fn lemma_install_twice_is_once(existing: Option<Seq<char>>, scope: PetScope)
    requires
        existing matches Some(e) ==> (first_occurrence(e, hook_begin()) matches Some(s) ==> first_occurrence(
            e.skip(s),
            hook_end(),
        ) is Some),
    ensures
        installed(Some(installed(existing, managed_block_text(scope))), managed_block_text(scope))
            == installed(existing, managed_block_text(scope)),
{
    if existing is None || existing->0.len() == 0 {
        lemma_reinstall_fresh(scope);
    } else {
        let e = existing->0;
        if first_occurrence(e, hook_begin()) is None {
            lemma_reinstall_appended(e, scope);
        } else {
            lemma_reinstall_replaced(e, scope);
        }
    }
}

} // verus!
