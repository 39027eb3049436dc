//! What the managed block of `.gitignore` is for.

use crate::gitignore::{
    appended, block_of, ignore_line, ignore_lines, lines_of, reconciled, replaced,
    rewritten, BEGIN, END,
};
use crate::place::place_of;
use crate::store::SharedRepoModel;
use crate::text::{first_at, sorted, trimmed, Class, Text};
use vstd::prelude::*;

verus! {

/// **The markers.**
pub proof fn law_markers()
    ensures
        BEGIN@ == "# xen-managed: BEGIN — do not edit (run xen to update)"@,
        END@ == "# xen-managed: END"@,
{
}

/// **A repo is ignored where it is placed**, as a directory, from the root on.
pub proof fn law_ignore_line(n: Text, r: SharedRepoModel, m: Map<Text, SharedRepoModel>, l: Text)
    ensures
        ignore_line(n, r) == "/"@ + trimmed(place_of(r.at, r.url, n), Class::Only('/')) + "/"@,
        ignore_lines(m).contains(l) <==> exists|k: Text| #[trigger]
            m.contains_key(k) && l == ignore_line(k, m[k]),
{
}

/// **The block has every line once, in order, between the markers.**
pub proof fn law_block(m: Map<Text, SharedRepoModel>)
    ensures
        block_of(m) == "# xen-managed: BEGIN — do not edit (run xen to update)"@ + "\n"@ + sorted(
            ignore_lines(m),
        ).map_values(|l: Text| l + "\n"@).flatten() + "# xen-managed: END"@ + "\n"@,
{
    lemma_lines(sorted(ignore_lines(m)));
}

proof fn lemma_lines(ls: Seq<Text>)
    ensures
        lines_of(ls) == ls.map_values(|l: Text| l + "\n"@).flatten(),
    decreases ls.len(),
{
    let f = |l: Text| l + "\n"@;
    let parts = ls.map_values(f);
    parts.lemma_flatten_and_flatten_alt_are_equivalent();
    if ls.len() > 0 {
        lemma_lines(ls.drop_last());
        assert(parts.drop_last() =~= ls.drop_last().map_values(f));
        parts.drop_last().lemma_flatten_and_flatten_alt_are_equivalent();
        assert(parts.last() == f(ls.last()));
        assert(lines_of(ls.drop_last()) + ls.last() + "\n"@ =~= lines_of(ls.drop_last()) + f(
            ls.last(),
        ));
    }
}

/// **A file without a block gets one at its end**, a blank line behind what is
/// there.
pub proof fn law_block_is_appended(existing: Text, block: Text)
    requires
        first_at(existing, "# xen-managed: BEGIN — do not edit (run xen to update)"@, 0) is None,
    ensures
        existing.len() == 0 ==> replaced(existing, block) == block,
        existing.len() > 0 && existing.last() == '\n' ==> replaced(existing, block) == existing
            + seq!['\n'] + block,
        existing.len() > 0 && existing.last() != '\n' ==> replaced(existing, block) == existing
            + seq!['\n', '\n'] + block,
{
    reveal_strlit("\n");
    assert("\n"@ =~= seq!['\n']);
    assert(appended(existing, block) == replaced(existing, block));
    assert(existing + "\n"@ + "\n"@ + block =~= existing + seq!['\n', '\n'] + block);
}

/// **A block is replaced where it stands**: from its opening marker through the
/// first closing marker behind it and the end of that line. What is before and
/// what is behind stays as it is.
pub proof fn law_block_is_replaced(existing: Text, block: Text, b: int, e: int)
    requires
        first_at(existing, "# xen-managed: BEGIN — do not edit (run xen to update)"@, 0) == Some(b),
        first_at(existing, "# xen-managed: END"@, b) == Some(e),
    ensures
        ({
            let end = e + "# xen-managed: END"@.len();
            replaced(existing, block) == existing.take(b) + block + existing.skip(
                if end < existing.len() && existing[end] == '\n' {
                    end + 1
                } else {
                    end
                },
            )
        }),
{
}

/// **An opening marker that nothing closes is left**, and a block is put at the
/// end.
pub proof fn law_open_block_is_left(existing: Text, block: Text, b: int)
    requires
        first_at(existing, "# xen-managed: BEGIN — do not edit (run xen to update)"@, 0) == Some(b),
        first_at(existing, "# xen-managed: END"@, b) is None,
        existing.len() > 0,
    ensures
        existing.last() == '\n' ==> replaced(existing, block) == existing + seq!['\n'] + block,
        existing.last() != '\n' ==> replaced(existing, block) == existing + seq!['\n', '\n']
            + block,
{
    reveal_strlit("\n");
    assert("\n"@ =~= seq!['\n']);
    assert(appended(existing, block) == replaced(existing, block));
    assert(existing + "\n"@ + "\n"@ + block =~= existing + seq!['\n', '\n'] + block);
}

/// **Reconciling puts the block of the manifest there.**
pub proof fn law_reconciled(existing: Text, m: Map<Text, SharedRepoModel>)
    ensures
        reconciled(existing, m) == replaced(existing, block_of(m)),
{
}

/// **Contents that are right are left**; others are replaced by the right ones.
pub proof fn law_rewritten(existing: Text, m: Map<Text, SharedRepoModel>)
    ensures
        reconciled(existing, m) == existing ==> rewritten(existing, m) is None,
        reconciled(existing, m) != existing ==> rewritten(existing, m) == Some(
            reconciled(existing, m),
        ),
{
}

} // verus!
