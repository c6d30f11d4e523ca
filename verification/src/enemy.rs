//! Enemies are files: a file's extension picks its behavioural archetype and
//! its byte size its hit points.

use vstd::prelude::*;

verus! {

/// Behavioural archetype. Determined from a file's extension at spawn time.
#[derive(Debug, Clone, Copy, PartialEq, Eq, Structural)]
pub enum EnemyKind {
    /// `.rs` and other source files (`c`, `h`, `cpp`, `py`, `js`, `ts`,
    /// `go`): quick, frequent jumps.
    Nimble,
    /// `.log`, `.bin` and other bulk files (`dat`, `iso`): slow, heavy,
    /// rare hops.
    Heavy,
    /// `.png`, `.jpg` and other media (`jpeg`, `gif`, `webp`, `mp3`,
    /// `mp4`): floaty, hovers above the floor.
    Floaty,
    /// Everything else.
    Default,
}

/// ASCII lower-casing of one character: `A..=Z` map to `a..=z`, every other
/// character is kept.
pub open spec fn ascii_lower(c: char) -> char {
    if 'A' <= c && c <= 'Z' {
        ((c as u32) + 32) as char
    } else {
        c
    }
}

/// ASCII lower-casing of a string, character by character.
pub open spec fn ascii_lowercase(s: Seq<char>) -> Seq<char> {
    s.map_values(|c: char| ascii_lower(c))
}

/// Source-file extensions (lower case): nimble enemies.
pub open spec fn is_source_extension(e: Seq<char>) -> bool {
    ||| e == seq!['r', 's']
    ||| e == seq!['c']
    ||| e == seq!['h']
    ||| e == seq!['c', 'p', 'p']
    ||| e == seq!['p', 'y']
    ||| e == seq!['j', 's']
    ||| e == seq!['t', 's']
    ||| e == seq!['g', 'o']
}

/// Bulk-file extensions (lower case): heavy enemies.
pub open spec fn is_bulk_extension(e: Seq<char>) -> bool {
    ||| e == seq!['l', 'o', 'g']
    ||| e == seq!['b', 'i', 'n']
    ||| e == seq!['d', 'a', 't']
    ||| e == seq!['i', 's', 'o']
}

/// Media-file extensions (lower case): floaty enemies.
pub open spec fn is_media_extension(e: Seq<char>) -> bool {
    ||| e == seq!['p', 'n', 'g']
    ||| e == seq!['j', 'p', 'g']
    ||| e == seq!['j', 'p', 'e', 'g']
    ||| e == seq!['g', 'i', 'f']
    ||| e == seq!['w', 'e', 'b', 'p']
    ||| e == seq!['m', 'p', '3']
    ||| e == seq!['m', 'p', '4']
}

/// The archetype that a file extension (as `Path::extension` gives it)
/// selects, compared case-insensitively in ASCII: source files nimble,
/// bulk files heavy, media floaty, anything else (or no extension) default.
pub open spec fn kind_for_extension(ext: Option<Seq<char>>) -> EnemyKind {
    match ext {
        Some(e) => {
            let e = ascii_lowercase(e);
            if is_source_extension(e) {
                EnemyKind::Nimble
            } else if is_bulk_extension(e) {
                EnemyKind::Heavy
            } else if is_media_extension(e) {
                EnemyKind::Floaty
            } else {
                EnemyKind::Default
            }
        },
        None => EnemyKind::Default,
    }
}

/// What `std::path::Path::file_name` returns for the path spelled by the
/// given characters, as Unicode text: its final component, `None` for a
/// root, an empty path or one that ends in `..`.
pub uninterp spec fn path_file_name(path: Seq<char>) -> Option<Seq<char>>;

/// Calls `std::path::Path::file_name` on `path` and hands back the file
/// name as characters. Trusted: the result is claimed to be
/// `path_file_name(path@)`; nothing more of it is stated.
#[verifier::external_body]
fn file_name_of(path: &str) -> (name: Option<Vec<char>>)
    ensures
        match name {
            Some(v) => path_file_name(path@) == Some(v@),
            None => path_file_name(path@) is None,
        },
{
    let n = std::path::Path::new(path).file_name()?;
    let s = n.to_str()?;
    Some(s.chars().collect())
}

/// The index of the last `.` in `name`, if any.
pub open spec fn last_dot(name: Seq<char>) -> Option<int>
    decreases name.len(),
{
    if name.len() == 0 {
        None
    } else if name.last() == '.' {
        Some(name.len() - 1)
    } else {
        last_dot(name.drop_last())
    }
}

/// The extension of a file name, as `std::path::Path::extension` documents
/// it: none without an embedded `.`, none for a name that begins with `.`
/// and has no other `.`, else the part after the final `.`.
pub open spec fn extension_of_file_name(name: Seq<char>) -> Option<Seq<char>> {
    match last_dot(name) {
        None => None,
        Some(d) => if d == 0 {
            None
        } else {
            Some(name.subrange(d + 1, name.len() as int))
        },
    }
}

/// What `std::path::Path::extension` returns for the path spelled by the
/// given characters: the extension of its file name.
pub open spec fn path_extension(path: Seq<char>) -> Option<Seq<char>> {
    match path_file_name(path) {
        Some(name) => extension_of_file_name(name),
        None => None,
    }
}

/// The last `.` sits at `i - 1` when no later character is a `.`.
proof fn lemma_last_dot(name: Seq<char>, i: int)
    requires
        0 <= i <= name.len(),
        forall|j: int| i <= j < name.len() ==> name[j] != '.',
        i == 0 || name[i - 1] == '.',
    ensures
        last_dot(name) == if i == 0 {
            None::<int>
        } else {
            Some(i - 1)
        },
    decreases name.len(),
{
    if name.len() > i {
        lemma_last_dot(name.drop_last(), i);
    }
}

/// The extension of the file name `name` (see [`extension_of_file_name`]).
pub fn extension_from_file_name(name: &Vec<char>) -> (ext: Option<Vec<char>>)
    ensures
        match ext {
            Some(v) => extension_of_file_name(name@) == Some(v@),
            None => extension_of_file_name(name@) is None,
        },
{
    let mut i = name.len();
    while i > 0 && name[i - 1] != '.'
        invariant
            i <= name.len(),
            forall|j: int| i <= j < name.len() ==> name@[j] != '.',
        decreases i,
    {
        i = i - 1;
    }
    proof {
        lemma_last_dot(name@, i as int);
    }
    if i <= 1 {
        return None;
    }
    let mut ext: Vec<char> = Vec::new();
    let mut k = i;
    while k < name.len()
        invariant
            i <= k <= name.len(),
            ext@ == name@.subrange(i as int, k as int),
        decreases name.len() - k,
    {
        ext.push(name[k]);
        assert(name@.subrange(i as int, k + 1) =~= name@.subrange(i as int, k as int).push(name@[k as int]));
        k = k + 1;
    }
    Some(ext)
}

/// Lower-case one ASCII letter; every other character passes through.
pub fn to_ascii_lower(c: char) -> (l: char)
    ensures
        l == ascii_lower(c),
{
    if 'A' <= c && c <= 'Z' {
        ((c as u8) + 32) as char
    } else {
        c
    }
}

/// Whether `text`, lower-cased in ASCII, spells exactly `lower`.
fn ascii_lower_equals(text: &Vec<char>, lower: &[char]) -> (b: bool)
    ensures
        b == (ascii_lowercase(text@) == lower@),
{
    if text.len() != lower.len() {
        proof {
            assert(ascii_lowercase(text@).len() != lower@.len());
        }
        return false;
    }
    let mut i: usize = 0;
    while i < text.len()
        invariant
            i <= text.len(),
            text.len() == lower@.len(),
            forall|j: int| 0 <= j < i ==> ascii_lower(#[trigger] text@[j]) == lower@[j],
        decreases text.len() - i,
    {
        if to_ascii_lower(text[i]) != lower[i] {
            proof {
                assert(ascii_lowercase(text@)[i as int] != lower@[i as int]);
            }
            return false;
        }
        i = i + 1;
    }
    proof {
        assert(ascii_lowercase(text@) =~= lower@);
    }
    true
}

/// Whether `ext`, lower-cased in ASCII, is a source-file extension.
fn is_source(ext: &Vec<char>) -> (b: bool)
    ensures
        b == is_source_extension(ascii_lowercase(ext@)),
{
    let c = ['c'];
    let h = ['h'];
    assert(c@ =~= seq!['c']);
    assert(h@ =~= seq!['h']);
    ascii_lower_equals(ext, &['r', 's']) || ascii_lower_equals(ext, &c) || ascii_lower_equals(
        ext,
        &h,
    ) || ascii_lower_equals(ext, &['c', 'p', 'p']) || ascii_lower_equals(ext, &['p', 'y'])
        || ascii_lower_equals(ext, &['j', 's']) || ascii_lower_equals(ext, &['t', 's'])
        || ascii_lower_equals(ext, &['g', 'o'])
}

/// Whether `ext`, lower-cased in ASCII, is a bulk-file extension.
fn is_bulk(ext: &Vec<char>) -> (b: bool)
    ensures
        b == is_bulk_extension(ascii_lowercase(ext@)),
{
    ascii_lower_equals(ext, &['l', 'o', 'g']) || ascii_lower_equals(ext, &['b', 'i', 'n'])
        || ascii_lower_equals(ext, &['d', 'a', 't']) || ascii_lower_equals(ext, &['i', 's', 'o'])
}

/// Whether `ext`, lower-cased in ASCII, is a media-file extension.
fn is_media(ext: &Vec<char>) -> (b: bool)
    ensures
        b == is_media_extension(ascii_lowercase(ext@)),
{
    ascii_lower_equals(ext, &['p', 'n', 'g']) || ascii_lower_equals(ext, &['j', 'p', 'g'])
        || ascii_lower_equals(ext, &['j', 'p', 'e', 'g']) || ascii_lower_equals(
        ext,
        &['g', 'i', 'f'],
    ) || ascii_lower_equals(ext, &['w', 'e', 'b', 'p']) || ascii_lower_equals(
        ext,
        &['m', 'p', '3'],
    ) || ascii_lower_equals(ext, &['m', 'p', '4'])
}

/// The archetype that the file extension `ext` (as `Path::extension`
/// gives it, `None` for no extension) selects, compared without regard to
/// ASCII case: source files (`rs`, `c`, `h`, `cpp`, `py`, `js`, `ts`, `go`)
/// nimble, bulk files (`log`, `bin`, `dat`, `iso`) heavy, media (`png`,
/// `jpg`, `jpeg`, `gif`, `webp`, `mp3`, `mp4`) floaty, anything else
/// default.
pub fn kind_of_extension(ext: Option<Vec<char>>) -> (kind: EnemyKind)
    ensures
        kind == kind_for_extension(
            match ext {
                Some(v) => Some(v@),
                None => None,
            },
        ),
{
    match ext {
        Some(ext) => {
            if is_source(&ext) {
                EnemyKind::Nimble
            } else if is_bulk(&ext) {
                EnemyKind::Heavy
            } else if is_media(&ext) {
                EnemyKind::Floaty
            } else {
                EnemyKind::Default
            }
        },
        None => EnemyKind::Default,
    }
}

/// The archetype of the file called `file_name`: source files (such as
/// `.rs`) are nimble, bulk files (such as `.log`, `.bin`) heavy, media (such
/// as `.png`, `.jpg`) floaty and all others default (see
/// [`kind_of_extension`]). The extension is the one `std::path::Path`
/// reports, compared without regard to ASCII case.
pub fn classify(file_name: &str) -> (kind: EnemyKind)
    ensures
        kind == kind_for_extension(path_extension(file_name@)),
{
    match file_name_of(file_name) {
        Some(name) => kind_of_extension(extension_from_file_name(&name)),
        None => EnemyKind::Default,
    }
}

/// Only the extension matters, and its ASCII case does not: two extensions
/// that agree once lower-cased select the same archetype.
pub proof fn lemma_kind_ignores_ascii_case(e1: Seq<char>, e2: Seq<char>)
    requires
        ascii_lowercase(e1) == ascii_lowercase(e2),
    ensures
        kind_for_extension(Some(e1)) == kind_for_extension(Some(e2)),
{
}

/// The extensions that name each archetype select it in any letter case:
/// `rs` nimble, `log` and `bin` heavy, `png` and `jpg` floaty; a name
/// without an extension is default.
pub proof fn lemma_named_extensions(e: Seq<char>)
    ensures
        ascii_lowercase(e) == seq!['r', 's'] ==> kind_for_extension(Some(e)) == EnemyKind::Nimble,
        ascii_lowercase(e) == seq!['l', 'o', 'g'] ==> kind_for_extension(Some(e))
            == EnemyKind::Heavy,
        ascii_lowercase(e) == seq!['b', 'i', 'n'] ==> kind_for_extension(Some(e))
            == EnemyKind::Heavy,
        ascii_lowercase(e) == seq!['p', 'n', 'g'] ==> kind_for_extension(Some(e))
            == EnemyKind::Floaty,
        ascii_lowercase(e) == seq!['j', 'p', 'g'] ==> kind_for_extension(Some(e))
            == EnemyKind::Floaty,
        kind_for_extension(None) == EnemyKind::Default,
{
}

/// Bytes in a kilobyte.
pub const KB: u64 = 1024;

/// Highest hit-point value any file gets.
pub const MAX_ENEMY_HP: u32 = 5;

/// Hit points of a file of `size` bytes: `ceil(log2(size / 1 KB))`, clamped
/// to `[1, 5]`. Files up to and including 2 KB get 1 HP, up to 4 KB 2 HP, up
/// to 8 KB 3 HP, up to 16 KB 4 HP, everything larger 5 HP.
pub open spec fn spec_hp_from_size(size: nat) -> u32 {
    if size <= 2 * 1024 {
        1
    } else if size <= 4 * 1024 {
        2
    } else if size <= 8 * 1024 {
        3
    } else if size <= 16 * 1024 {
        4
    } else {
        5
    }
}

/// HP mapping from file byte size.
///
/// Empty files, files under 1 KB and files of exactly 1 KB all resolve to
/// 1 HP. From just above 1 KB, HP is `ceil(log2(size_kb))`, capped at 5 so
/// that no file takes more than five disc hits to down.
pub fn hp_from_size(size: u64) -> (hp: u32)
    ensures
        hp == spec_hp_from_size(size as nat),
{
    if size <= 2 * KB {
        1
    } else if size <= 4 * KB {
        2
    } else if size <= 8 * KB {
        3
    } else if size <= 16 * KB {
        4
    } else {
        MAX_ENEMY_HP
    }
}

/// `2^k` for small `k`.
pub open spec fn pow2(k: nat) -> nat
    decreases k,
{
    if k == 0 {
        1
    } else {
        2 * pow2((k - 1) as nat)
    }
}

/// Every file gets between 1 and 5 hit points, and files of at most 1 KB get
/// exactly 1.
pub proof fn lemma_hp_in_range(size: nat)
    ensures
        1 <= spec_hp_from_size(size) <= MAX_ENEMY_HP,
        size <= 1024 ==> spec_hp_from_size(size) == 1,
{
}

/// Hit points grow with file size: a larger file never has fewer.
pub proof fn lemma_hp_monotonic(small: nat, large: nat)
    requires
        small <= large,
    ensures
        spec_hp_from_size(small) <= spec_hp_from_size(large),
{
}

/// Below the cap, the hit points are the ceiling of the base-2 logarithm of
/// the size in kilobytes (and at least 1): `hp` is the least `k >= 1` with
/// `size <= 2^k KB`. At the cap the file is larger than 16 KB.
pub proof fn lemma_hp_is_ceil_log2_kb(size: nat)
    ensures
        ({
            let hp = spec_hp_from_size(size) as nat;
            &&& hp < 5 ==> size <= 1024 * pow2(hp)
            &&& hp > 1 ==> size > 1024 * pow2((hp - 1) as nat)
            &&& hp == 5 ==> size > 1024 * pow2(4)
        }),
{
    reveal_with_fuel(pow2, 6);
}

} // verus!
