//! Replacing a file without ever showing half of it.
//!
//! An incoming frame is first written to a temporary path beside its
//! destination and then renamed over it. The temporary path is the
//! destination, `.tmp.` and a number that tells the writers of one
//! destination apart, such as the process id. The file system's rename is
//! taken to be indivisible; nothing here locks, and two writers with the same
//! number must not write to the same destination.
//!
//! The two steps are asked for by a session that collects, one after the
//! other and the second only once the first is reported done. This module
//! says where a frame is staged and what the two steps do to the files.

use vstd::prelude::*;

verus! {

/// The decimal digits of `n`, most significant first, as ASCII.
pub open spec fn decimal(n: nat) -> Seq<u8>
    decreases n,
{
    if n < 10 {
        seq![(48 + n) as u8]
    } else {
        decimal(n / 10).push((48 + n % 10) as u8)
    }
}

/// The five bytes `.tmp.`.
pub open spec fn infix() -> Seq<u8> {
    seq![46u8, 116u8, 109u8, 112u8, 46u8]
}

/// The temporary path for a destination and a writer's number.
pub open spec fn temp_path_spec(destination: Seq<u8>, suffix: nat) -> Seq<u8> {
    destination + infix() + decimal(suffix)
}

/// A number has at least one digit.
pub proof fn lemma_decimal_nonempty(n: nat)
    ensures
        decimal(n).len() >= 1,
    decreases n,
{
    if n >= 10 {
        lemma_decimal_nonempty(n / 10);
    }
}

/// Different numbers have different digits.
pub proof fn lemma_decimal_injective(a: nat, b: nat)
    requires
        decimal(a) == decimal(b),
    ensures
        a == b,
    decreases a,
{
    if a < 10 && b < 10 {
        assert(decimal(a)[0] == (48 + a) as u8);
        assert(decimal(b)[0] == (48 + b) as u8);
    } else if a < 10 {
        lemma_decimal_nonempty(b / 10);
        assert(decimal(b).len() >= 2);
    } else if b < 10 {
        lemma_decimal_nonempty(a / 10);
        assert(decimal(a).len() >= 2);
    } else {
        let x = decimal(a / 10);
        let y = decimal(b / 10);
        let p = (48 + a % 10) as u8;
        let q = (48 + b % 10) as u8;
        assert(x.push(p).drop_last() == x);
        assert(y.push(q).drop_last() == y);
        assert(x.push(p).last() == p);
        assert(y.push(q).last() == q);
        lemma_decimal_injective(a / 10, b / 10);
    }
}

/// The temporary path is never the destination itself.
pub proof fn lemma_temp_path_is_not_destination(destination: Seq<u8>, suffix: nat)
    ensures
        temp_path_spec(destination, suffix) != destination,
{
    lemma_decimal_nonempty(suffix);
}

/// Writers with different numbers stage the same destination at different
/// paths.
pub proof fn lemma_temp_paths_distinct(destination: Seq<u8>, a: nat, b: nat)
    requires
        a != b,
    ensures
        temp_path_spec(destination, a) != temp_path_spec(destination, b),
{
    let head = destination + infix();
    if temp_path_spec(destination, a) == temp_path_spec(destination, b) {
        assert((head + decimal(a)).skip(head.len() as int) == decimal(a));
        assert((head + decimal(b)).skip(head.len() as int) == decimal(b));
        lemma_decimal_injective(a, b);
    }
}

/// The decimal digits of `n`, most significant first, as ASCII.
pub fn decimal_digits(n: u32) -> (r: Vec<u8>)
    ensures
        r@ == decimal(n as nat),
    decreases n,
{
    if n < 10 {
        let mut digits: Vec<u8> = Vec::new();
        digits.push(48 + n as u8);
        assert(digits@ =~= decimal(n as nat));
        digits
    } else {
        let mut digits = decimal_digits(n / 10);
        digits.push(48 + (n % 10) as u8);
        digits
    }
}

/// The temporary path for a destination and a writer's number.
pub fn temp_path(destination: &[u8], suffix: u32) -> (r: Vec<u8>)
    ensures
        r@ == temp_path_spec(destination@, suffix as nat),
{
    let mut path: Vec<u8> = Vec::new();
    path.extend_from_slice(destination);
    path.push(46);
    path.push(116);
    path.push(109);
    path.push(112);
    path.push(46);
    let mut digits = decimal_digits(suffix);
    path.append(&mut digits);
    path
}

/// The files that matter, each path with its content.
pub type Files = Map<Seq<u8>, Seq<u8>>;

/// The files after `bytes` are written to `path`.
pub open spec fn written(files: Files, path: Seq<u8>, bytes: Seq<u8>) -> Files {
    files.insert(path, bytes)
}

/// The files after `from` is renamed to `to`. Renaming a file that is not
/// there changes nothing.
pub open spec fn renamed(files: Files, from: Seq<u8>, to: Seq<u8>) -> Files {
    if files.contains_key(from) {
        files.remove(from).insert(to, files[from])
    } else {
        files
    }
}

/// The files after `frame` is persisted to `destination` by the writer with
/// number `suffix`: staged at the temporary path, then renamed.
pub open spec fn persisted(
    files: Files,
    destination: Seq<u8>,
    suffix: nat,
    frame: Seq<u8>,
) -> Files {
    let temp = temp_path_spec(destination, suffix);
    renamed(written(files, temp, frame), temp, destination)
}

/// After a frame is persisted, the destination holds exactly that frame, and
/// persisting the same frame once more changes nothing.
pub proof fn lemma_persist_is_idempotent(
    files: Files,
    destination: Seq<u8>,
    suffix: nat,
    frame: Seq<u8>,
)
    ensures
        persisted(files, destination, suffix, frame).contains_key(destination),
        persisted(files, destination, suffix, frame)[destination] == frame,
        persisted(persisted(files, destination, suffix, frame), destination, suffix, frame)
            == persisted(files, destination, suffix, frame),
{
    lemma_temp_path_is_not_destination(destination, suffix);
    let once = persisted(files, destination, suffix, frame);
    let twice = persisted(once, destination, suffix, frame);
    assert(twice =~= once);
}

/// Staging never touches the destination: whatever has reached the temporary
/// path so far, a complete frame or any part of one, the destination is what
/// it was. It changes only in the rename, and then to the whole of what was
/// staged.
pub proof fn lemma_destination_is_never_partial(
    files: Files,
    destination: Seq<u8>,
    suffix: nat,
    partial: Seq<u8>,
)
    ensures
        written(files, temp_path_spec(destination, suffix), partial).contains_key(destination)
            == files.contains_key(destination),
        written(files, temp_path_spec(destination, suffix), partial)[destination]
            == files[destination],
        renamed(
            written(files, temp_path_spec(destination, suffix), partial),
            temp_path_spec(destination, suffix),
            destination,
        )[destination] == partial,
{
    lemma_temp_path_is_not_destination(destination, suffix);
}

} // verus!
