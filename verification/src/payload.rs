use vstd::prelude::*;
use crate::json::{json_size, measure_json, JsonValue};

verus! {

/// The default response budget: 64 KiB.
pub const DEFAULT_MAX_RESPONSE_BYTES: usize = 65536;

/// The serialised size of one value as the running process measures it.
pub open spec fn jsize(v: JsonValue) -> int {
    (json_size(v) as usize) as int
}

/// Where the greedy scan stops: the first index whose item no longer fits,
/// given the bytes already `used` (brackets and separators included).
pub open spec fn cut_from(items: Seq<JsonValue>, idx: int, used: int, maxb: int) -> int
    decreases items.len() - idx,
{
    if idx < 0 || idx >= items.len() {
        items.len() as int
    } else {
        let sep: int = if idx > 0 {
            1
        } else {
            0
        };
        if used + sep + jsize(items[idx]) > maxb {
            idx
        } else {
            cut_from(items, idx + 1, used + sep + jsize(items[idx]), maxb)
        }
    }
}

/// How many leading items fit in `maxb` bytes once wrapped as a JSON array.
pub open spec fn cut_len(items: Seq<JsonValue>, maxb: int) -> int {
    cut_from(items, 0, 2, maxb)
}

/// Bytes consumed by the first `k` items plus brackets and separators.
pub open spec fn used_by(items: Seq<JsonValue>, k: int) -> int
    decreases k,
{
    if k <= 0 {
        2
    } else {
        used_by(items, k - 1) + (if k > 1 {
            1int
        } else {
            0int
        }) + jsize(items[k - 1])
    }
}

proof fn lemma_cut_from_bounds(items: Seq<JsonValue>, idx: int, used: int, maxb: int)
    requires
        0 <= idx <= items.len(),
    ensures
        idx <= cut_from(items, idx, used, maxb) <= items.len(),
    decreases items.len() - idx,
{
    if idx < items.len() {
        let sep: int = if idx > 0 {
            1
        } else {
            0
        };
        if !(used + sep + jsize(items[idx]) > maxb) {
            lemma_cut_from_bounds(items, idx + 1, used + sep + jsize(items[idx]), maxb);
        }
    }
}

/// The cut point is a prefix length.
pub proof fn lemma_cut_len_bounds(items: Seq<JsonValue>, maxb: int)
    ensures
        0 <= cut_len(items, maxb) <= items.len(),
{
    lemma_cut_from_bounds(items, 0, 2, maxb);
}

/// Keep the longest prefix of `results` whose serialised array stays within
/// `max_bytes` (the default budget when 0); report whether anything was cut.
pub fn enforce_payload_safety_limit(results: Vec<JsonValue>, max_bytes: usize) -> (r: (
    Vec<JsonValue>,
    bool,
))
    ensures
        ({
            let eff = if max_bytes == 0 {
                DEFAULT_MAX_RESPONSE_BYTES as int
            } else {
                max_bytes as int
            };
            &&& r.0@ == results@.subrange(0, cut_len(results@, eff))
            &&& r.1 == (cut_len(results@, eff) < results@.len())
        }),
{
    let eff: usize = if max_bytes == 0 {
        DEFAULT_MAX_RESPONSE_BYTES
    } else {
        max_bytes
    };
    let ghost whole = results@;
    let n = results.len();
    let mut rest = results;
    let mut out: Vec<JsonValue> = Vec::new();
    let mut used: usize = 2;
    let mut i: usize = 0;
    let mut truncated = false;
    proof {
        lemma_cut_from_bounds(whole, 0, 2, eff as int);
        assert(rest@ =~= whole.subrange(0, whole.len() as int));
    }
    while i < n
        invariant_except_break
            n == whole.len(),
            0 <= i <= n,
            used as int == used_by(whole, i as int),
            i > 0 ==> used <= eff,
            out@ == whole.subrange(0, i as int),
            rest@ == whole.subrange(i as int, n as int),
            truncated == false,
            cut_len(whole, eff as int) == cut_from(whole, i as int, used as int, eff as int),
        ensures
            n == whole.len(),
            out@ == whole.subrange(0, cut_len(whole, eff as int)),
            truncated == (cut_len(whole, eff as int) < whole.len()),
        decreases n - i,
    {
        assert(rest@[0] == whole[i as int]);
        let item_size = measure_json(&rest[0]);
        let sep: usize = if i > 0 {
            1
        } else {
            0
        };
        if used > eff {
            truncated = true;
            assert(used + sep + jsize(whole[i as int]) > eff);
            assert(cut_from(whole, i as int, used as int, eff as int) == i);
            break ;
        }
        let room: usize = eff - used;
        if sep > room || item_size > room - sep {
            truncated = true;
            assert(used + sep + jsize(whole[i as int]) > eff);
            assert(cut_from(whole, i as int, used as int, eff as int) == i);
            break ;
        }
        used = used + sep + item_size;
        let item = rest.remove(0);
        out.push(item);
        proof {
            assert(out@ =~= whole.subrange(0, i + 1));
            assert(rest@ =~= whole.subrange(i + 1, n as int));
        }
        i = i + 1;
        proof {
            lemma_cut_from_bounds(whole, i as int, used as int, eff as int);
        }
    }
    proof {
        if !truncated {
            assert(whole.subrange(0, n as int) =~= whole);
        }
    }
    (out, truncated)
}

/// Whatever was kept fits the budget: the bytes used by the surviving prefix,
/// array brackets and separators included, never exceed the effective limit.
pub proof fn law_payload_within_budget(items: Seq<JsonValue>, maxb: int)
    requires
        maxb >= 2,
    ensures
        used_by(items, cut_len(items, maxb)) <= maxb,
{
    lemma_cut_respects_budget(items, 0, 2, maxb);
}

proof fn lemma_cut_respects_budget(items: Seq<JsonValue>, idx: int, used: int, maxb: int)
    requires
        0 <= idx <= items.len(),
        used <= maxb,
        used == used_by(items, idx),
    ensures
        used_by(items, cut_from(items, idx, used, maxb)) <= maxb,
    decreases items.len() - idx,
{
    if idx < items.len() {
        let sep: int = if idx > 0 {
            1
        } else {
            0
        };
        if used + sep + jsize(items[idx]) > maxb {
        } else {
            assert(used_by(items, idx + 1) == used + sep + jsize(items[idx]));
            lemma_cut_respects_budget(items, idx + 1, used + sep + jsize(items[idx]), maxb);
        }
    }
}

/// Dropping nothing and dropping everything are both within the law: the
/// truncation point is maximal, so every longer prefix would overrun.
pub proof fn law_payload_cut_is_maximal(items: Seq<JsonValue>, maxb: int)
    requires
        maxb >= 2,
        forall|i: int| 0 <= i < items.len() ==> jsize(#[trigger] items[i]) >= 0,
    ensures
        cut_len(items, maxb) < items.len() ==> used_by(items, cut_len(items, maxb) + 1) > maxb,
{
    lemma_cut_maximal(items, 0, 2, maxb);
}

proof fn lemma_cut_maximal(items: Seq<JsonValue>, idx: int, used: int, maxb: int)
    requires
        0 <= idx <= items.len(),
        used == used_by(items, idx),
    ensures
        cut_from(items, idx, used, maxb) < items.len() ==> used_by(
            items,
            cut_from(items, idx, used, maxb) + 1,
        ) > maxb,
    decreases items.len() - idx,
{
    if idx < items.len() {
        let sep: int = if idx > 0 {
            1
        } else {
            0
        };
        if used + sep + jsize(items[idx]) > maxb {
            assert(used_by(items, idx + 1) == used + sep + jsize(items[idx]));
        } else {
            lemma_cut_maximal(items, idx + 1, used + sep + jsize(items[idx]), maxb);
        }
    }
}

} // verus!
