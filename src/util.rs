//! Size rendering, path joining and the search for a free conflict suffix.
use vstd::prelude::*;
use vstd::relations::injective_on;
use vstd::set_lib::{lemma_int_range, lemma_len_subset, lemma_map_size, set_int_range};

use crate::text::{chars_of, decimal, lemma_decimal_injective, push_decimal, push_str, string_of};

verus! {

/// Regular files larger than this many bytes are not copied without asking.
pub const BIG_FILE_THRESHOLD: u64 = 500000000;

/// Whether a regular file of `len` bytes needs the large-file question.
pub open spec fn is_big(len: nat) -> bool {
    len > BIG_FILE_THRESHOLD
}

pub fn is_big_file(len: u64) -> (r: bool)
    ensures
        r == is_big(len as nat),
{
    len > BIG_FILE_THRESHOLD
}

/// The unit in which a size is shown: the largest of bytes, KB, MB, GB and
/// TB (powers of 1000) in which the value is still above 10.
pub open spec fn size_level(b: nat) -> nat {
    if b / 1_000_000_000_000 > 10 {
        4
    } else if b / 1_000_000_000 > 10 {
        3
    } else if b / 1_000_000 > 10 {
        2
    } else if b / 1000 > 10 {
        1
    } else {
        0
    }
}

pub open spec fn level_divisor(level: nat) -> nat {
    if level == 4 {
        1_000_000_000_000
    } else if level == 3 {
        1_000_000_000
    } else if level == 2 {
        1_000_000
    } else if level == 1 {
        1000
    } else {
        1
    }
}

pub open spec fn unit_name(level: nat) -> Seq<char> {
    if level == 4 {
        seq!['T', 'B']
    } else if level == 3 {
        seq!['G', 'B']
    } else if level == 2 {
        seq!['M', 'B']
    } else if level == 1 {
        seq!['K', 'B']
    } else {
        seq!['b', 'y', 't', 'e', 's']
    }
}

/// `b` shown as a whole number of its unit, a space, and the unit.
pub open spec fn humanized(b: nat) -> Seq<char> {
    decimal(b / level_divisor(size_level(b))) + seq![' '] + unit_name(size_level(b))
}

/// Renders a byte count for people: "1500 bytes" is shown as "1 KB".
pub fn humanize_bytes(bytes: u64) -> (r: String)
    ensures
        r@ == humanized(bytes as nat),
{
    let (div, unit): (u64, &str) = if bytes / 1_000_000_000_000 > 10 {
        (1_000_000_000_000, "TB")
    } else if bytes / 1_000_000_000 > 10 {
        (1_000_000_000, "GB")
    } else if bytes / 1_000_000 > 10 {
        (1_000_000, "MB")
    } else if bytes / 1000 > 10 {
        (1000, "KB")
    } else {
        (1, "bytes")
    };
    proof {
        reveal_strlit("TB");
        reveal_strlit("GB");
        reveal_strlit("MB");
        reveal_strlit("KB");
        reveal_strlit("bytes");
    }
    assert(unit@ =~= unit_name(size_level(bytes as nat)));
    let mut out: Vec<char> = Vec::new();
    push_decimal(&mut out, (bytes / div) as u128);
    out.push(' ');
    push_str(&mut out, unit);
    assert(out@ =~= humanized(bytes as nat));
    string_of(&out)
}

/// Whether a reply to a yes/no question means yes: it starts with `y` or `Y`.
pub open spec fn means_yes(reply: Seq<char>) -> bool {
    reply.len() > 0 && (reply[0] == 'y' || reply[0] == 'Y')
}

/// Reads a reply to a yes/no question; anything else than a reply starting
/// with `y` or `Y`, the empty one included, is a no.
pub fn is_yes(reply: &str) -> (r: bool)
    ensures
        r == means_yes(reply@),
{
    if reply.unicode_len() == 0 {
        return false;
    }
    let c = reply.get_char(0);
    c == 'y' || c == 'Y'
}

/// `s` without its leading separators.
pub open spec fn trim_root(s: Seq<char>) -> Seq<char>
    decreases s.len(),
{
    if s.len() > 0 && s[0] == '/' {
        trim_root(s.drop_first())
    } else {
        s
    }
}

/// Path joining: an absolute `p` replaces `base`; otherwise `p` follows
/// `base`, with one separator between them unless `base` is empty or
/// already ends in one.
pub open spec fn join_path(base: Seq<char>, p: Seq<char>) -> Seq<char> {
    if p.len() > 0 && p[0] == '/' {
        p
    } else if base.len() == 0 || base.last() == '/' {
        base + p
    } else {
        base + seq!['/'] + p
    }
}

/// `right` re-rooted under `left`, even when `right` is absolute.
pub open spec fn rerooted(left: Seq<char>, right: Seq<char>) -> Seq<char> {
    join_path(left, trim_root(right))
}

/// Joins `p` onto `base` as paths are joined.
pub fn join(base: &Vec<char>, p: &Vec<char>) -> (r: Vec<char>)
    ensures
        r@ == join_path(base@, p@),
{
    if p.len() > 0 && p[0] == '/' {
        return p.clone();
    }
    let mut out = base.clone();
    if !(base.len() == 0 || base[base.len() - 1] == '/') {
        out.push('/');
    }
    let mut i: usize = 0;
    while i < p.len()
        invariant
            i <= p.len(),
            base@.len() == 0 || base@.last() == '/' ==> out@ == base@ + p@.take(i as int),
            !(base@.len() == 0 || base@.last() == '/') ==> out@ == base@ + seq!['/'] + p@.take(i as int),
        decreases p.len() - i,
    {
        out.push(p[i]);
        i = i + 1;
        assert(p@.take(i as int) =~= p@.take(i - 1 as int).push(p@[i - 1 as int]));
        assert(base@ + p@.take(i as int) =~= (base@ + p@.take(i - 1 as int)).push(p@[i - 1 as int]));
        assert(base@ + seq!['/'] + p@.take(i as int) =~= (base@ + seq!['/'] + p@.take(i - 1 as int)).push(p@[i - 1 as int]));
    }
    assert(p@.take(p.len() as int) =~= p@);
    out
}

/// The characters of `s` after its leading separators.
fn trimmed_root(s: &Vec<char>) -> (r: Vec<char>)
    ensures
        r@ == trim_root(s@),
{
    let mut i: usize = 0;
    assert(s@.skip(0) =~= s@);
    while i < s.len() && s[i] == '/'
        invariant
            i <= s.len(),
            trim_root(s@) == trim_root(s@.skip(i as int)),
        decreases s.len() - i,
    {
        assert(s@.skip(i as int).drop_first() =~= s@.skip(i + 1));
        i = i + 1;
    }
    let mut r: Vec<char> = Vec::new();
    let mut j: usize = i;
    while j < s.len()
        invariant
            i <= j <= s.len(),
            r@ == s@.subrange(i as int, j as int),
        decreases s.len() - j,
    {
        r.push(s[j]);
        j = j + 1;
        assert(r@ =~= s@.subrange(i as int, j as int));
    }
    assert(r@ =~= s@.skip(i as int));
    r
}

/// Joins `right` under `left`, dropping the leading separators of `right`
/// first, so that an absolute path is placed inside `left`.
pub fn join_absolute(left: &str, right: &str) -> (r: String)
    ensures
        r@ == rerooted(left@, right@),
{
    let l = chars_of(left);
    let rt = trimmed_root(&chars_of(right));
    string_of(&join(&l, &rt))
}

/// The `k`-th disambiguated form of `name`: `name~k`.
pub open spec fn suffixed(name: Seq<char>, k: nat) -> Seq<char> {
    name + seq!['~'] + decimal(k)
}

/// Whether `p` is one of the occupied paths.
pub open spec fn taken(occupied: Seq<String>, p: Seq<char>) -> bool {
    exists|i: int| 0 <= i < occupied.len() && (#[trigger] occupied[i])@ == p
}

/// `k` is the least suffix, from 1 on, whose form of `name` is free.
pub open spec fn first_free(occupied: Seq<String>, name: Seq<char>, k: nat) -> bool {
    &&& k >= 1
    &&& !taken(occupied, suffixed(name, k))
    &&& forall|j: nat| 1 <= j < k ==> taken(occupied, #[trigger] suffixed(name, j))
}

pub proof fn lemma_suffixed_injective(name: Seq<char>, a: nat, b: nat)
    requires
        suffixed(name, a) == suffixed(name, b),
    ensures
        a == b,
{
    let n = name.len() as int + 1;
    assert(decimal(a) =~= suffixed(name, a).skip(n));
    assert(decimal(b) =~= suffixed(name, b).skip(n));
    lemma_decimal_injective(a, b);
}

/// At most as many distinct suffixes are taken as there are occupied paths.
proof fn lemma_taken_bound(occupied: Seq<String>, name: Seq<char>, k: nat)
    requires
        k >= 1,
        forall|j: nat| 1 <= j < k ==> taken(occupied, #[trigger] suffixed(name, j)),
    ensures
        k - 1 <= occupied.len(),
{
    let views = occupied.map_values(|s: String| s@);
    let xs = set_int_range(1, k as int);
    let f = |j: int| suffixed(name, j as nat);
    lemma_int_range(1, k as int);
    assert(injective_on(f, xs)) by {
        assert forall|a: int, b: int| xs.contains(a) && xs.contains(b) && f(a) == f(b) implies a == b by {
            lemma_suffixed_injective(name, a as nat, b as nat);
        }
    }
    let ys = xs.map(f);
    lemma_map_size(xs, ys, f);
    assert(ys.subset_of(views.to_set())) by {
        assert forall|p: Seq<char>| ys.contains(p) implies views.to_set().contains(p) by {
            let j = choose|j: int| xs.contains(j) && f(j) == p;
            assert(taken(occupied, suffixed(name, j as nat)));
            let i = choose|i: int| 0 <= i < occupied.len() && (#[trigger] occupied[i])@ == suffixed(name, j as nat);
            assert(views[i] == p);
        }
    }
    views.lemma_cardinality_of_set();
    lemma_len_subset(ys, views.to_set());
}

fn is_taken(occupied: &Vec<String>, p: &String) -> (r: bool)
    ensures
        r == taken(occupied@, p@),
{
    let mut i: usize = 0;
    while i < occupied.len()
        invariant
            i <= occupied.len(),
            forall|j: int| 0 <= j < i ==> (#[trigger] occupied@[j])@ != p@,
        decreases occupied.len() - i,
    {
        if occupied[i].eq(p) {
            return true;
        }
        i = i + 1;
    }
    false
}

/// Disambiguates `file` against the occupied paths: the first of `file~1`,
/// `file~2`, ... that is not occupied.
pub fn rename_tempfile(file: &str, occupied: &Vec<String>) -> (r: String)
    ensures
        exists|k: nat| first_free(occupied@, file@, k) && r@ == suffixed(file@, k),
{
    let name = chars_of(file);
    let mut k: u128 = 1;
    loop
        invariant
            name@ == file@,
            1 <= k <= occupied.len() + 1,
            forall|j: nat| 1 <= j < k ==> taken(occupied@, #[trigger] suffixed(file@, j)),
        decreases occupied.len() + 1 - k,
    {
        let mut cand = name.clone();
        cand.push('~');
        push_decimal(&mut cand, k);
        let cand = string_of(&cand);
        assert(cand@ =~= suffixed(file@, k as nat));
        if !is_taken(occupied, &cand) {
            assert(first_free(occupied@, file@, k as nat));
            return cand;
        }
        proof {
            lemma_taken_bound(occupied@, file@, (k + 1) as nat);
        }
        k = k + 1;
    }
}

/// Places `source` in the tempstore at `root`: `source` re-rooted under
/// `root`, or, when that path is occupied, its first free `~k` form.
pub open spec fn destination_spec(occupied: Seq<String>, root: Seq<char>, source: Seq<char>, r: Seq<char>) -> bool {
    let candidate = rerooted(root, source);
    if taken(occupied, candidate) {
        exists|k: nat| first_free(occupied, candidate, k) && r == suffixed(candidate, k)
    } else {
        r == candidate
    }
}

/// Two sources that map to the same place: where the first one's
/// destination `ra` is occupied by the time the second one is placed (and
/// nothing that was occupied has been freed), the second one's destination
/// is the same place with a `~k` suffix whose number is larger than that of
/// the first one, if it had one.
pub proof fn lemma_repeat_gets_larger_suffix(
    occupied: Seq<String>,
    later: Seq<String>,
    root: Seq<char>,
    a: Seq<char>,
    b: Seq<char>,
    ra: Seq<char>,
    rb: Seq<char>,
)
    requires
        rerooted(root, a) == rerooted(root, b),
        destination_spec(occupied, root, a, ra),
        forall|p: Seq<char>| taken(occupied, p) ==> taken(later, p),
        taken(later, ra),
        destination_spec(later, root, b, rb),
    ensures
        exists|k2: nat| {
            &&& k2 >= 1
            &&& rb == suffixed(rerooted(root, b), k2)
            &&& (ra == rerooted(root, a) || exists|k: nat| 1 <= k < k2 && ra == suffixed(rerooted(root, a), k))
        },
{
    let c = rerooted(root, a);
    if !taken(occupied, c) {
        assert(taken(later, c));
        let k2 = choose|k2: nat| first_free(later, c, k2) && rb == suffixed(c, k2);
        assert(k2 >= 1);
    } else {
        let k = choose|k: nat| first_free(occupied, c, k) && ra == suffixed(c, k);
        assert(taken(later, c));
        let k2 = choose|k2: nat| first_free(later, c, k2) && rb == suffixed(c, k2);
        if k2 < k {
            assert(taken(occupied, suffixed(c, k2)));
        }
        assert(k < k2);
    }
}

/// The destination of `source` in the tempstore at `root`, given the paths
/// that already exist there (dangling links included).
pub fn resolve_destination(root: &str, source: &str, occupied: &Vec<String>) -> (r: String)
    ensures
        destination_spec(occupied@, root@, source@, r@),
{
    let candidate = join_absolute(root, source);
    if is_taken(occupied, &candidate) {
        rename_tempfile(candidate.as_str(), occupied)
    } else {
        candidate
    }
}

} // verus!
