//! Summary documents: sanitising stored BlockNote blocks, and the values
//! that the summary commands compute from what the database returns.
use vstd::prelude::*;

use crate::json::{
    find_member, json_view, lemma_member_set_get_other, lemma_member_set_get_same,
    lemma_member_set_twice, lemma_member_set_unchanged, lemma_members_view, lemma_members_view_ext,
    lemma_values_view, lemma_values_view_ext, member_get, member_index, member_set, members_view,
    values_view, JsonValue, JsonView, key_is,
};
use crate::seq_search::lemma_first_index_spec;
use crate::text::{concat, owned, str_to_lowercase, to_lowercase};

verus! {

/// The view of an optional JSON value.
pub open spec fn opt_json_view(o: Option<JsonValue>) -> Option<JsonView> {
    match o {
        Some(v) => Some(json_view(v)),
        None => None,
    }
}

/// The value is present and is a string.
pub open spec fn is_str(v: Option<JsonView>) -> bool {
    match v {
        Some(JsonView::Str(_)) => true,
        _ => false,
    }
}

/// A BlockNote inline-content item: an object with a non-empty string
/// `type`; a `text` item has a string `text`; `styles`, when present, is
/// null or an object.
pub open spec fn spec_valid_inline_content(item: JsonView) -> bool {
    match item {
        JsonView::Object(ms) => match member_get(ms, "type"@) {
            Some(JsonView::Str(t)) => {
                &&& t.len() > 0
                &&& t == "text"@ ==> is_str(member_get(ms, "text"@))
                &&& match member_get(ms, "styles"@) {
                    Some(JsonView::Null) => true,
                    Some(JsonView::Object(_)) => true,
                    None => true,
                    _ => false,
                }
            },
            _ => false,
        },
        _ => false,
    }
}

/// The block has a non-empty string `type`.
pub open spec fn block_type_ok(ms: Seq<(Seq<char>, JsonView)>) -> bool {
    match member_get(ms, "type"@) {
        Some(JsonView::Str(t)) => t.len() > 0,
        _ => false,
    }
}

/// The block's `content`, when present, is not a string, and when it is an
/// array, every item is valid inline content.
pub open spec fn block_content_ok(ms: Seq<(Seq<char>, JsonView)>) -> bool {
    match member_get(ms, "content"@) {
        Some(JsonView::Str(_)) => false,
        Some(JsonView::Array(items)) => forall|k: int|
            0 <= k < items.len() ==> spec_valid_inline_content(#[trigger] items[k]),
        _ => true,
    }
}

/// The sanitised block: `None` when the block is dropped; otherwise the block
/// with `children` set to its sanitised children (an empty array when it had
/// none or they were not an array).
pub open spec fn spec_sanitize_block(b: JsonView) -> Option<JsonView>
    decreases b, 0nat,
{
    match b {
        JsonView::Object(ms) => if block_type_ok(ms) && block_content_ok(ms) {
            let ci = member_index(ms, "children"@);
            proof {
                lemma_first_index_spec(ms, key_is("children"@));
            }
            let kids = if ci >= 0 {
                match ms[ci].1 {
                    JsonView::Array(cs) => spec_sanitize_blocks(cs, cs.len()),
                    _ => Seq::empty(),
                }
            } else {
                Seq::empty()
            };
            Some(JsonView::Object(member_set(ms, "children"@, JsonView::Array(kids))))
        } else {
            None
        },
        _ => None,
    }
}

/// The sanitised blocks kept from the first `n` of `bs`, in order.
pub open spec fn spec_sanitize_blocks(bs: Seq<JsonView>, n: nat) -> Seq<JsonView>
    decreases bs, n,
{
    if n == 0 || n > bs.len() {
        Seq::empty()
    } else {
        let prev = spec_sanitize_blocks(bs, (n - 1) as nat);
        match spec_sanitize_block(bs[n - 1]) {
            Some(x) => prev.push(x),
            None => prev,
        }
    }
}

/// A block as BlockNote renders it without error: an object with a
/// non-empty string `type`, valid `content`, and a `children` array of such
/// blocks.
pub open spec fn valid_block(b: JsonView) -> bool
    decreases b, 0nat,
{
    match b {
        JsonView::Object(ms) => if block_type_ok(ms) && block_content_ok(ms) {
            let ci = member_index(ms, "children"@);
            proof {
                lemma_first_index_spec(ms, key_is("children"@));
            }
            if ci >= 0 {
                match ms[ci].1 {
                    JsonView::Array(cs) => valid_blocks(cs, cs.len()),
                    _ => false,
                }
            } else {
                false
            }
        } else {
            false
        },
        _ => false,
    }
}

/// The first `n` blocks of `bs` are valid.
pub open spec fn valid_blocks(bs: Seq<JsonView>, n: nat) -> bool
    decreases bs, n,
{
    if n == 0 || n > bs.len() {
        true
    } else {
        valid_blocks(bs, (n - 1) as nat) && valid_block(bs[n - 1])
    }
}

proof fn lemma_valid_blocks_index(bs: Seq<JsonView>, n: nat, k: int)
    requires
        n <= bs.len(),
        valid_blocks(bs, n),
        0 <= k < n,
    ensures
        valid_block(bs[k]),
    decreases n,
{
    if k < n - 1 {
        lemma_valid_blocks_index(bs, (n - 1) as nat, k);
    }
}

proof fn lemma_valid_blocks_all(bs: Seq<JsonView>, n: nat)
    requires
        n <= bs.len(),
        forall|k: int| 0 <= k < n ==> valid_block(#[trigger] bs[k]),
    ensures
        valid_blocks(bs, n),
    decreases n,
{
    if n > 0 {
        lemma_valid_blocks_all(bs, (n - 1) as nat);
    }
}

/// The blocks kept by sanitising are exactly those of the sanitised list,
/// each sanitised.
proof fn lemma_sanitize_blocks_members(bs: Seq<JsonView>, n: nat, k: int)
    requires
        n <= bs.len(),
        0 <= k < spec_sanitize_blocks(bs, n).len(),
    ensures
        exists|j: int| 0 <= j < n && spec_sanitize_block(bs[j]) == Some(
            #[trigger] spec_sanitize_blocks(bs, n)[k],
        ),
    decreases n,
{
    if n > 0 {
        let prev = spec_sanitize_blocks(bs, (n - 1) as nat);
        if k < prev.len() {
            lemma_sanitize_blocks_members(bs, (n - 1) as nat, k);
            let j = choose|j: int| 0 <= j < n - 1 && spec_sanitize_block(bs[j]) == Some(
                #[trigger] spec_sanitize_blocks(bs, (n - 1) as nat)[k],
            );
            assert(spec_sanitize_blocks(bs, n)[k] == prev[k]);
            assert(spec_sanitize_block(bs[j]) == Some(spec_sanitize_blocks(bs, n)[k]));
        } else {
            assert(spec_sanitize_block(bs[n - 1]) == Some(spec_sanitize_blocks(bs, n)[k]));
        }
    }
}

/// What sanitising keeps is valid.
pub proof fn lemma_sanitized_block_is_valid(b: JsonView)
    ensures
        spec_sanitize_block(b) matches Some(x) ==> valid_block(x),
    decreases b, 0nat,
{
    if let JsonView::Object(ms) = b {
        if block_type_ok(ms) && block_content_ok(ms) {
            lemma_first_index_spec(ms, key_is("children"@));
            let ci = member_index(ms, "children"@);
            let kids = if ci >= 0 {
                match ms[ci].1 {
                    JsonView::Array(cs) => spec_sanitize_blocks(cs, cs.len()),
                    _ => Seq::empty(),
                }
            } else {
                Seq::empty()
            };
            if ci >= 0 {
                if let JsonView::Array(cs) = ms[ci].1 {
                    lemma_sanitized_blocks_are_valid(cs, cs.len());
                }
            }
            assert forall|k: int| 0 <= k < kids.len() implies valid_block(#[trigger] kids[k]) by {
                if ci >= 0 {
                    if let JsonView::Array(cs) = ms[ci].1 {
                        assert(valid_block(kids[k]));
                    }
                }
            }
            lemma_valid_blocks_all(kids, kids.len());
            let t = member_set(ms, "children"@, JsonView::Array(kids));
            reveal_strlit("children");
            reveal_strlit("type");
            reveal_strlit("content");
            assert("children"@.len() != "type"@.len());
            assert("children"@.len() != "content"@.len());
            lemma_member_set_get_other(ms, "children"@, JsonView::Array(kids), "type"@);
            lemma_member_set_get_other(ms, "children"@, JsonView::Array(kids), "content"@);
            lemma_member_set_get_same(ms, "children"@, JsonView::Array(kids));
            lemma_first_index_spec(t, key_is("children"@));
            assert(block_type_ok(t));
            assert(block_content_ok(t));
        }
    }
}

/// Every block of a sanitised list is valid.
pub proof fn lemma_sanitized_blocks_are_valid(bs: Seq<JsonView>, n: nat)
    requires
        n <= bs.len(),
    ensures
        forall|k: int|
            0 <= k < spec_sanitize_blocks(bs, n).len() ==> valid_block(
                #[trigger] spec_sanitize_blocks(bs, n)[k],
            ),
    decreases bs, n,
{
    assert forall|k: int| 0 <= k < spec_sanitize_blocks(bs, n).len() implies valid_block(
        #[trigger] spec_sanitize_blocks(bs, n)[k],
    ) by {
        lemma_sanitize_blocks_members(bs, n, k);
        let j = choose|j: int| 0 <= j < n && spec_sanitize_block(bs[j]) == Some(
            #[trigger] spec_sanitize_blocks(bs, n)[k],
        );
        assert(decreases_to!(bs => bs[j]));
        lemma_sanitized_block_is_valid(bs[j]);
    }
}

/// A valid block is left as it is by sanitising.
pub proof fn lemma_valid_block_is_fixed(b: JsonView)
    requires
        valid_block(b),
    ensures
        spec_sanitize_block(b) == Some(b),
    decreases b, 0nat,
{
    if let JsonView::Object(ms) = b {
        lemma_first_index_spec(ms, key_is("children"@));
        let ci = member_index(ms, "children"@);
        if let JsonView::Array(cs) = ms[ci].1 {
            lemma_valid_blocks_are_fixed(cs, cs.len());
            assert(cs.take(cs.len() as int) =~= cs);
            lemma_member_set_unchanged(ms, "children"@, JsonView::Array(cs));
        }
    }
}

/// Valid blocks are all kept, each unchanged.
pub proof fn lemma_valid_blocks_are_fixed(bs: Seq<JsonView>, n: nat)
    requires
        n <= bs.len(),
        valid_blocks(bs, n),
    ensures
        spec_sanitize_blocks(bs, n) == bs.take(n as int),
    decreases bs, n,
{
    if n > 0 {
        lemma_valid_blocks_are_fixed(bs, (n - 1) as nat);
        assert(decreases_to!(bs => bs[n - 1]));
        lemma_valid_block_is_fixed(bs[n - 1]);
        assert(bs.take(n - 1).push(bs[n - 1]) =~= bs.take(n as int));
    } else {
        assert(bs.take(0) =~= Seq::<JsonView>::empty());
    }
}

/// Sanitising is idempotent: a sanitised block sanitises to itself.
pub proof fn lemma_sanitize_idempotent(b: JsonView)
    ensures
        spec_sanitize_block(b) matches Some(x) ==> spec_sanitize_block(x) == Some(x),
{
    lemma_sanitized_block_is_valid(b);
    if let Some(x) = spec_sanitize_block(b) {
        lemma_valid_block_is_fixed(x);
    }
}

/// Whether `item` is valid BlockNote inline content.
pub fn is_valid_inline_content(item: &JsonValue) -> (r: bool)
    ensures
        r == spec_valid_inline_content(item@),
{
    let ms = match item {
        JsonValue::Object(ms) => ms,
        _ => return false,
    };
    let ghost mv = members_view(ms@);
    proof {
        lemma_members_view(ms@, ms@.len());
    }
    let t = match find_member(ms, "type") {
        Some(i) => match &ms[i].1 {
            JsonValue::String(t) => t,
            _ => return false,
        },
        None => return false,
    };
    if t.as_str().is_empty() {
        return false;
    }
    if crate::text::str_eq(t.as_str(), "text") {
        match find_member(ms, "text") {
            Some(i) => match &ms[i].1 {
                JsonValue::String(_) => {},
                _ => return false,
            },
            None => return false,
        }
    }
    match find_member(ms, "styles") {
        Some(i) => match &ms[i].1 {
            JsonValue::Null => {},
            JsonValue::Object(_) => {},
            _ => return false,
        },
        None => {},
    }
    true
}

/// Whether every item of `items` is valid inline content.
fn all_valid_inline(items: &Vec<JsonValue>) -> (r: bool)
    ensures
        r == forall|k: int|
            0 <= k < values_view(items@).len() ==> spec_valid_inline_content(
                #[trigger] values_view(items@)[k],
            ),
{
    proof {
        lemma_values_view(items@, items@.len());
    }
    let ghost iv = values_view(items@);
    let mut k: usize = 0;
    while k < items.len()
        invariant
            k <= items.len(),
            iv == values_view(items@),
            iv.len() == items@.len(),
            forall|j: int| 0 <= j < items@.len() ==> #[trigger] iv[j] == json_view(items@[j]),
            forall|j: int| 0 <= j < k ==> spec_valid_inline_content(#[trigger] iv[j]),
        decreases items.len() - k,
    {
        if !is_valid_inline_content(&items[k]) {
            assert(!spec_valid_inline_content(iv[k as int]));
            return false;
        }
        k = k + 1;
    }
    true
}

/// Sanitises one BlockNote block: `None` when the block is to be dropped (not
/// an object, no non-empty string `type`, string `content`, or an invalid
/// inline-content item); otherwise the block with its `children` sanitised.
pub fn sanitize_blocknote_block(block: JsonValue) -> (r: Option<JsonValue>)
    ensures
        opt_json_view(r) == spec_sanitize_block(json_view(block)),
    decreases block, 0nat,
{
    let ghost bv = json_view(block);
    let mut ms = match block {
        JsonValue::Object(ms) => ms,
        _ => return None,
    };
    let ghost ms0 = ms@;
    let ghost mv = members_view(ms@);
    proof {
        lemma_members_view(ms@, ms@.len());
        assert(bv == JsonView::Object(mv));
    }
    match find_member(&ms, "type") {
        Some(i) => match &ms[i].1 {
            JsonValue::String(t) => {
                if t.as_str().is_empty() {
                    return None;
                }
            },
            _ => return None,
        },
        None => return None,
    }
    assert(block_type_ok(mv));
    match find_member(&ms, "content") {
        Some(i) => match &ms[i].1 {
            JsonValue::String(_) => return None,
            JsonValue::Array(items) => {
                if !all_valid_inline(items) {
                    return None;
                }
            },
            _ => {},
        },
        None => {},
    }
    assert(block_content_ok(mv));
    proof {
        lemma_first_index_spec(mv, key_is("children"@));
    }
    match find_member(&ms, "children") {
        Some(ci) => {
            let (key, value) = ms.remove(ci);
            assert(key@ == "children"@);
            let kids = match value {
                JsonValue::Array(cs) => {
                    proof {
                        assert(ms0[ci as int] == (key, JsonValue::Array(cs)));
                        lemma_values_view(cs@, cs@.len());
                        assert(mv[ci as int].1 == JsonView::Array(values_view(cs@)));
                    }
                    sanitize_blocks(cs)
                },
                _ => {
                    proof {
                        assert(ms0[ci as int] == (key, value));
                        assert(mv[ci as int].1 == json_view(value));
                    }
                    Vec::new()
                },
            };
            ms.insert(ci, (key, JsonValue::Array(kids)));
            proof {
                lemma_values_view(kids@, kids@.len());
                let target = mv.update(ci as int, ("children"@, JsonView::Array(values_view(kids@))));
                assert forall|j: int| 0 <= j < ms@.len() implies (#[trigger] ms@[j].0@, json_view(
                    ms@[j].1,
                )) == target[j] by {
                    if j != ci {
                        assert(ms@[j] == ms0[j]);
                    }
                }
                lemma_members_view_ext(ms@, target);
            }
        },
        None => {
            let key = owned("children");
            let kids: Vec<JsonValue> = Vec::new();
            ms.push((key, JsonValue::Array(kids)));
            proof {
                lemma_values_view(kids@, 0);
                assert(values_view(kids@) =~= Seq::<JsonView>::empty());
                let target = mv.push(("children"@, JsonView::Array(values_view(kids@))));
                assert forall|j: int| 0 <= j < ms@.len() implies (#[trigger] ms@[j].0@, json_view(
                    ms@[j].1,
                )) == target[j] by {
                    if j < ms0.len() {
                        assert(ms@[j] == ms0[j]);
                    }
                }
                lemma_members_view_ext(ms@, target);
            }
        },
    }
    Some(JsonValue::Object(ms))
}

/// Sanitises a list of blocks, keeping the blocks that survive, in order.
pub fn sanitize_blocks(blocks: Vec<JsonValue>) -> (r: Vec<JsonValue>)
    ensures
        values_view(r@) == spec_sanitize_blocks(values_view(blocks@), blocks@.len()),
    decreases blocks, 1nat,
{
    let ghost bs = blocks@;
    let ghost bv = values_view(bs);
    proof {
        lemma_values_view(bs, bs.len());
    }
    let mut rest = blocks;
    let mut out: Vec<JsonValue> = Vec::new();
    let mut i: usize = 0;
    let n = rest.len();
    while i < n
        invariant
            n == bs.len(),
            bs == blocks@,
            i <= n,
            rest@ == bs.subrange(i as int, n as int),
            bv == values_view(bs),
            bv.len() == bs.len(),
            forall|j: int| 0 <= j < bs.len() ==> #[trigger] bv[j] == json_view(bs[j]),
            values_view(out@) == spec_sanitize_blocks(bv, i as nat),
        decreases n - i,
    {
        let x = rest.remove(0);
        assert(x == bs[i as int]);
        proof {
            vstd::std_specs::vec::axiom_vec_index_decreases(blocks, i as int);
            assert(decreases_to!(blocks => x));
        }
        let sanitized = sanitize_blocknote_block(x);
        match sanitized {
            Some(y) => {
                proof {
                    lemma_values_view(out@, out@.len());
                    lemma_values_view_ext(out@.push(y), values_view(out@).push(json_view(y)));
                }
                out.push(y);
            },
            None => {},
        }
        i = i + 1;
        assert(rest@ =~= bs.subrange(i as int, n as int));
    }
    out
}

/// What the migration does with one stored summary document.
#[derive(Debug, PartialEq)]
pub enum DocumentMigration {
    /// The stored text is not JSON.
    Unparsable,
    /// The document has no non-empty `summary_json` array.
    Skipped,
    /// Every block of `summary_json` was dropped; nothing is saved.
    AllBlocksInvalid,
    /// The document to save back, with `summary_json` sanitised.
    Updated(JsonValue),
}

/// The mathematical value of a `DocumentMigration`.
pub enum DocumentMigrationView {
    Unparsable,
    Skipped,
    AllBlocksInvalid,
    Updated(JsonView),
}

/// The view of a migration outcome.
pub open spec fn migration_view(m: DocumentMigration) -> DocumentMigrationView {
    match m {
        DocumentMigration::Unparsable => DocumentMigrationView::Unparsable,
        DocumentMigration::Skipped => DocumentMigrationView::Skipped,
        DocumentMigration::AllBlocksInvalid => DocumentMigrationView::AllBlocksInvalid,
        DocumentMigration::Updated(v) => DocumentMigrationView::Updated(json_view(v)),
    }
}

/// The migration of a parsed summary document (`None`: it did not parse):
/// its `summary_json` array, when present and non-empty, is replaced by the
/// sanitised blocks, unless none of them survives.
pub open spec fn spec_migrate_document(parsed: Option<JsonView>) -> DocumentMigrationView {
    match parsed {
        None => DocumentMigrationView::Unparsable,
        Some(JsonView::Object(ms)) => match member_get(ms, "summary_json"@) {
            Some(JsonView::Array(blocks)) => if blocks.len() == 0 {
                DocumentMigrationView::Skipped
            } else {
                let kept = spec_sanitize_blocks(blocks, blocks.len());
                if kept.len() == 0 {
                    DocumentMigrationView::AllBlocksInvalid
                } else {
                    DocumentMigrationView::Updated(
                        JsonView::Object(member_set(ms, "summary_json"@, JsonView::Array(kept))),
                    )
                }
            },
            _ => DocumentMigrationView::Skipped,
        },
        Some(_) => DocumentMigrationView::Skipped,
    }
}

/// Migrating a summary leaves every block of its `summary_json` valid, and
/// migrating the result again changes nothing.
pub proof fn lemma_migration_idempotent(parsed: Option<JsonView>)
    ensures
        spec_migrate_document(parsed) matches DocumentMigrationView::Updated(d) ==> {
            &&& d matches JsonView::Object(ms) && member_get(ms, "summary_json"@) matches Some(
                JsonView::Array(blocks),
            ) && forall|k: int| 0 <= k < blocks.len() ==> valid_block(#[trigger] blocks[k])
            &&& spec_migrate_document(Some(d)) == DocumentMigrationView::Updated(d)
        },
{
    if let Some(JsonView::Object(ms)) = parsed {
        if let Some(JsonView::Array(blocks)) = member_get(ms, "summary_json"@) {
            let kept = spec_sanitize_blocks(blocks, blocks.len());
            if blocks.len() > 0 && kept.len() > 0 {
                let t = member_set(ms, "summary_json"@, JsonView::Array(kept));
                lemma_member_set_get_same(ms, "summary_json"@, JsonView::Array(kept));
                lemma_sanitized_blocks_are_valid(blocks, blocks.len());
                lemma_valid_blocks_all(kept, kept.len());
                lemma_valid_blocks_are_fixed(kept, kept.len());
                assert(kept.take(kept.len() as int) =~= kept);
                lemma_member_set_twice(ms, "summary_json"@, JsonView::Array(kept));
            }
        }
    }
}

/// Migrates one stored summary document, given as what parsing its text gave.
pub fn migrate_summary_document(parsed: Option<JsonValue>) -> (r: DocumentMigration)
    ensures
        migration_view(r) == spec_migrate_document(opt_json_view(parsed)),
{
    let mut ms = match parsed {
        None => return DocumentMigration::Unparsable,
        Some(JsonValue::Object(ms)) => ms,
        Some(_) => return DocumentMigration::Skipped,
    };
    let ghost ms0 = ms@;
    let ghost mv = members_view(ms@);
    proof {
        lemma_members_view(ms@, ms@.len());
        lemma_first_index_spec(mv, key_is("summary_json"@));
    }
    let ci = match find_member(&ms, "summary_json") {
        Some(ci) => ci,
        None => return DocumentMigration::Skipped,
    };
    let is_nonempty_array = match &ms[ci].1 {
        JsonValue::Array(items) => items.len() > 0,
        _ => false,
    };
    if !is_nonempty_array {
        proof {
            lemma_values_view(ms0[ci as int].1->Array_0@, ms0[ci as int].1->Array_0@.len());
        }
        return DocumentMigration::Skipped;
    }
    let (key, value) = ms.remove(ci);
    let blocks = match value {
        JsonValue::Array(blocks) => blocks,
        _ => return DocumentMigration::Skipped,
    };
    proof {
        assert(ms0[ci as int] == (key, JsonValue::Array(blocks)));
        lemma_values_view(blocks@, blocks@.len());
        assert(mv[ci as int].1 == JsonView::Array(values_view(blocks@)));
    }
    let kept = sanitize_blocks(blocks);
    proof {
        lemma_values_view(kept@, kept@.len());
    }
    if kept.len() == 0 {
        return DocumentMigration::AllBlocksInvalid;
    }
    ms.insert(ci, (key, JsonValue::Array(kept)));
    proof {
        let target = mv.update(ci as int, ("summary_json"@, JsonView::Array(values_view(kept@))));
        assert forall|j: int| 0 <= j < ms@.len() implies (#[trigger] ms@[j].0@, json_view(
            ms@[j].1,
        )) == target[j] by {
            if j != ci {
                assert(ms@[j] == ms0[j]);
            }
        }
        lemma_members_view_ext(ms@, target);
    }
    DocumentMigration::Updated(JsonValue::Object(ms))
}

/// What became of one stored summary in the migration.
#[derive(Debug, Clone, Copy, PartialEq, Eq, Structural)]
pub enum RowOutcome {
    Migrated,
    Skipped,
    Error,
}

/// The outcome of a row whose document migrated to `migration`; `saved` is
/// what saving the updated document reported (`Some(true)`: a meeting was
/// updated), and is only consulted for an updated document.
pub open spec fn spec_row_outcome(migration: DocumentMigrationView, saved: Option<bool>) -> RowOutcome {
    match migration {
        DocumentMigrationView::Skipped => RowOutcome::Skipped,
        DocumentMigrationView::Updated(_) => if saved == Some(true) {
            RowOutcome::Migrated
        } else {
            RowOutcome::Error
        },
        _ => RowOutcome::Error,
    }
}

/// Classifies one row of the migration.
pub fn row_outcome(migration: &DocumentMigration, saved: Option<bool>) -> (r: RowOutcome)
    ensures
        r == spec_row_outcome(migration_view(*migration), saved),
{
    match migration {
        DocumentMigration::Skipped => RowOutcome::Skipped,
        DocumentMigration::Updated(_) => match saved {
            Some(true) => RowOutcome::Migrated,
            _ => RowOutcome::Error,
        },
        _ => RowOutcome::Error,
    }
}

/// The counts the migration reports.
#[derive(Debug, Clone, Copy, PartialEq, Eq, Structural)]
pub struct MigrationCounts {
    pub total: usize,
    pub migrated: usize,
    pub skipped: usize,
    pub errors: usize,
}

impl MigrationCounts {
    /// Rows accounted for so far.
    pub open spec fn processed(self) -> int {
        self.migrated + self.skipped + self.errors
    }

    /// Every row accounted for at most once.
    pub open spec fn wf(self) -> bool {
        self.processed() <= self.total
    }

    /// Counts for `total` rows, none processed yet.
    pub fn new(total: usize) -> (r: Self)
        ensures
            r.wf(),
            r == (MigrationCounts { total, migrated: 0, skipped: 0, errors: 0 }),
    {
        MigrationCounts { total, migrated: 0, skipped: 0, errors: 0 }
    }

    /// Accounts for one more row.
    pub fn record(&mut self, outcome: RowOutcome)
        requires
            old(self).wf(),
            old(self).processed() < old(self).total,
        ensures
            final(self).wf(),
            final(self).total == old(self).total,
            final(self).processed() == old(self).processed() + 1,
            final(self).migrated == old(self).migrated + (if outcome == RowOutcome::Migrated { 1int } else { 0 }),
            final(self).skipped == old(self).skipped + (if outcome == RowOutcome::Skipped { 1int } else { 0 }),
            final(self).errors == old(self).errors + (if outcome == RowOutcome::Error { 1int } else { 0 }),
    {
        match outcome {
            RowOutcome::Migrated => self.migrated = self.migrated + 1,
            RowOutcome::Skipped => self.skipped = self.skipped + 1,
            RowOutcome::Error => self.errors = self.errors + 1,
        }
    }
}

/// The counts after recording `outcomes` from `start`.
pub open spec fn counts_after(start: MigrationCounts, outcomes: Seq<RowOutcome>) -> MigrationCounts
    decreases outcomes.len(),
{
    if outcomes.len() == 0 {
        start
    } else {
        let c = counts_after(start, outcomes.drop_last());
        let o = outcomes.last();
        MigrationCounts {
            total: c.total,
            migrated: if o == RowOutcome::Migrated { (c.migrated + 1) as usize } else { c.migrated },
            skipped: if o == RowOutcome::Skipped { (c.skipped + 1) as usize } else { c.skipped },
            errors: if o == RowOutcome::Error { (c.errors + 1) as usize } else { c.errors },
        }
    }
}

/// Once every row of a migration over `total` rows has been recorded, the
/// migrated, skipped and failed counts add up to the total.
pub proof fn lemma_migration_counts_add_up(total: usize, outcomes: Seq<RowOutcome>)
    requires
        outcomes.len() == total,
    ensures
        counts_after(MigrationCounts { total, migrated: 0, skipped: 0, errors: 0 }, outcomes).processed()
            == total,
        counts_after(MigrationCounts { total, migrated: 0, skipped: 0, errors: 0 }, outcomes).total
            == total,
    decreases outcomes.len(),
{
    lemma_counts_after_processed(MigrationCounts { total, migrated: 0, skipped: 0, errors: 0 }, outcomes);
}

proof fn lemma_counts_after_processed(start: MigrationCounts, outcomes: Seq<RowOutcome>)
    requires
        start.processed() + outcomes.len() <= start.total,
    ensures
        counts_after(start, outcomes).processed() == start.processed() + outcomes.len(),
        counts_after(start, outcomes).total == start.total,
    decreases outcomes.len(),
{
    if outcomes.len() > 0 {
        lemma_counts_after_processed(start, outcomes.drop_last());
    }
}

/// The reply to a request to save a summary, from what the store reported:
/// `Ok(true)` when a meeting was updated, `Ok(false)` when none was, or the
/// store's error text.
pub fn save_summary_reply(stored: Result<bool, String>) -> (r: Result<String, String>)
    ensures
        match stored {
            Ok(true) => r matches Ok(m) && m@ == "Meeting summary saved successfully"@,
            Ok(false) => r matches Err(m) && m@ == "Meeting not found or can't convert the json"@,
            Err(e) => r matches Err(m) && m@ == e@,
        },
{
    match stored {
        Ok(true) => Ok(owned("Meeting summary saved successfully")),
        Ok(false) => Err(owned("Meeting not found or can't convert the json")),
        Err(e) => Err(e),
    }
}

/// The message answering a cancellation request, by whether a running
/// summary generation was cancelled.
pub fn cancel_summary_message(cancelled: bool) -> (r: &'static str)
    ensures
        cancelled ==> r@ == "Summary generation cancelled successfully"@,
        !cancelled ==> r@ == "No active summary generation to cancel"@,
{
    if cancelled {
        "Summary generation cancelled successfully"
    } else {
        "No active summary generation to cancel"
    }
}

/// The status and data of a meeting's summary.
#[derive(Debug)]
pub struct SummaryResponse {
    pub status: String,
    pub meeting_name: Option<String>,
    pub meeting_id: String,
    pub start: Option<String>,
    pub end: Option<String>,
    pub data: Option<JsonValue>,
    pub error: Option<String>,
}

/// The response for a meeting with a summary process: the stored status in
/// lowercase, and the rest as given.
pub fn summary_response(
    stored_status: &str,
    meeting_name: Option<String>,
    meeting_id: String,
    start: Option<String>,
    end: Option<String>,
    data: Option<JsonValue>,
    error: Option<String>,
) -> (r: SummaryResponse)
    ensures
        r.status@ == str_to_lowercase(stored_status@),
        r.meeting_name == meeting_name,
        r.meeting_id == meeting_id,
        r.start == start,
        r.end == end,
        r.data == data,
        r.error == error,
{
    SummaryResponse {
        status: to_lowercase(stored_status),
        meeting_name,
        meeting_id,
        start,
        end,
        data,
        error,
    }
}

/// The response for a meeting with no summary process: status `idle`.
pub fn idle_summary_response(meeting_name: Option<String>, meeting_id: String) -> (r: SummaryResponse)
    ensures
        r.status@ == "idle"@,
        r.meeting_name == meeting_name,
        r.meeting_id == meeting_id,
        r.start is None,
        r.end is None,
        r.data is None,
        r.error is None,
{
    SummaryResponse {
        status: owned("idle"),
        meeting_name,
        meeting_id,
        start: None,
        end: None,
        data: None,
        error: None,
    }
}

/// Template used when a request names none.
pub const DEFAULT_TEMPLATE_ID: &'static str = "daily_standup";

/// Transcript chunk size used when a request gives none.
pub const DEFAULT_CHUNK_SIZE: i32 = 40000;

/// Chunk overlap used when a request gives none.
pub const DEFAULT_CHUNK_OVERLAP: i32 = 1000;

/// A lowercase hexadecimal digit.
pub open spec fn is_lower_hex(c: char) -> bool {
    ('0' <= c && c <= '9') || ('a' <= c && c <= 'f')
}

/// The hyphenated text form of a UUID: 36 characters, hyphens at positions
/// 8, 13, 18 and 23, lowercase hexadecimal digits elsewhere.
pub open spec fn is_hyphenated_uuid(s: Seq<char>) -> bool {
    &&& s.len() == 36
    &&& forall|i: int|
        0 <= i < 36 ==> if i == 8 || i == 13 || i == 18 || i == 23 {
            s[i] == '-'
        } else {
            is_lower_hex(#[trigger] s[i])
        }
}

/// The hyphenated text form of a random (version 4, RFC 4122 variant)
/// UUID: the version digit `4` at position 14, and a variant digit `8`, `9`,
/// `a` or `b` at position 19.
pub open spec fn is_random_uuid(s: Seq<char>) -> bool {
    &&& is_hyphenated_uuid(s)
    &&& s[14] == '4'
    &&& (s[19] == '8' || s[19] == '9' || s[19] == 'a' || s[19] == 'b')
}

/// A fresh random identifier: `uuid::Uuid::new_v4`, in the text form its
/// `Display` gives. The contract claims only the shape of that text (what
/// the crate's hyphenated formatting writes of a value whose version and
/// variant bits `new_v4` sets), not which identifier it is.
#[verifier::external_body]
fn random_uuid_text() -> (r: String)
    ensures
        is_random_uuid(r@),
{
    uuid::Uuid::new_v4().to_string()
}

/// The meeting a summary job is for: the given one, or a new identifier
/// `meeting-` followed by a random UUID.
pub fn resolve_meeting_id(meeting_id: Option<String>) -> (r: String)
    ensures
        meeting_id is Some ==> r == meeting_id->0,
        meeting_id is None ==> r@.len() == 44 && r@.subrange(0, 8) == "meeting-"@
            && is_random_uuid(r@.subrange(8, 44)),
{
    match meeting_id {
        Some(m) => m,
        None => {
            let id = random_uuid_text();
            let r = concat("meeting-", id.as_str());
            proof {
                reveal_strlit("meeting-");
                assert(r@.subrange(0, 8) =~= "meeting-"@);
                assert(r@.subrange(8, 44) =~= id@);
            }
            r
        },
    }
}

/// The settings of a summary job, with the defaults filled in.
#[derive(Debug)]
pub struct SummaryJobSettings {
    pub meeting_id: String,
    pub prompt: String,
    pub template_id: String,
    pub chunk_size: i32,
    pub overlap: i32,
}

/// The settings of a summary job from the request's optional values: an
/// empty prompt, the `daily_standup` template, chunks of 40000 characters
/// overlapping by 1000, unless the request says otherwise.
pub fn summary_job_settings(
    meeting_id: Option<String>,
    chunk_size: Option<i32>,
    overlap: Option<i32>,
    custom_prompt: Option<String>,
    template_id: Option<String>,
) -> (r: SummaryJobSettings)
    ensures
        meeting_id is Some ==> r.meeting_id == meeting_id->0,
        meeting_id is None ==> r.meeting_id@.len() == 44 && r.meeting_id@.subrange(0, 8)
            == "meeting-"@ && is_random_uuid(r.meeting_id@.subrange(8, 44)),
        r.prompt@ == (match custom_prompt { Some(p) => p@, None => Seq::empty() }),
        r.template_id@ == (match template_id { Some(t) => t@, None => DEFAULT_TEMPLATE_ID@ }),
        r.chunk_size == (match chunk_size { Some(c) => c, None => DEFAULT_CHUNK_SIZE }),
        r.overlap == (match overlap { Some(o) => o, None => DEFAULT_CHUNK_OVERLAP }),
{
    let meeting_id = resolve_meeting_id(meeting_id);
    let prompt = match custom_prompt {
        Some(p) => p,
        None => String::new(),
    };
    let template_id = match template_id {
        Some(t) => t,
        None => owned(DEFAULT_TEMPLATE_ID),
    };
    let chunk_size = match chunk_size {
        Some(c) => c,
        None => DEFAULT_CHUNK_SIZE,
    };
    let overlap = match overlap {
        Some(o) => o,
        None => DEFAULT_CHUNK_OVERLAP,
    };
    SummaryJobSettings { meeting_id, prompt, template_id, chunk_size, overlap }
}

/// The reply to a request to process a transcript.
#[derive(Debug)]
pub struct ProcessTranscriptResponse {
    pub message: String,
    pub process_id: String,
}

/// The reply once the summary job for `process_id` has been started.
pub fn process_started_response(process_id: String) -> (r: ProcessTranscriptResponse)
    ensures
        r.message@ == "Summary generation started"@,
        r.process_id == process_id,
{
    ProcessTranscriptResponse { message: owned("Summary generation started"), process_id }
}

/// The failure recorded for a summary job that panicked, from the panic's
/// message when it carried text.
pub fn panic_failure_message(panic_text: Option<String>) -> (r: String)
    ensures
        r@ == "Internal error: "@ + match panic_text {
            Some(t) => t@,
            None => "Unknown panic during summary generation"@,
        },
{
    let text = match panic_text {
        Some(t) => t,
        None => owned("Unknown panic during summary generation"),
    };
    concat("Internal error: ", text.as_str())
}

} // verus!
