//! The table that binds tokens to files.
//!
//! It is built once, from bindings that are already complete, and never
//! changes. No token and no file occurs twice in it, so that a token names one
//! file and no two tokens control the same file.

use crate::bytes::bytes_equal;
use crate::error::ConfigError;
use vstd::prelude::*;

verus! {

/// One line of the table: a token and the file that it gives access to.
#[derive(Debug, PartialEq, Eq)]
pub struct FileBinding {
    pub token: Vec<u8>,
    pub path: Vec<u8>,
}

impl View for FileBinding {
    type V = (Seq<u8>, Seq<u8>);

    open spec fn view(&self) -> (Seq<u8>, Seq<u8>) {
        (self.token@, self.path@)
    }
}

/// The bindings of a list, each as a pair of token and path.
pub open spec fn pairs(bindings: Seq<FileBinding>) -> Seq<(Seq<u8>, Seq<u8>)> {
    bindings.map_values(|binding: FileBinding| binding@)
}

/// No token occurs in two bindings.
pub open spec fn tokens_unique(bindings: Seq<(Seq<u8>, Seq<u8>)>) -> bool {
    forall|i: int, j: int| 0 <= i < j < bindings.len() ==> bindings[i].0 != bindings[j].0
}

/// No file occurs in two bindings.
pub open spec fn paths_unique(bindings: Seq<(Seq<u8>, Seq<u8>)>) -> bool {
    forall|i: int, j: int| 0 <= i < j < bindings.len() ==> bindings[i].1 != bindings[j].1
}

/// Some binding carries `token`.
pub open spec fn knows(bindings: Seq<(Seq<u8>, Seq<u8>)>, token: Seq<u8>) -> bool {
    exists|i: int| 0 <= i < bindings.len() && bindings[i].0 == token
}

/// The file that `token` is bound to, if any binding carries it.
pub open spec fn path_of(bindings: Seq<(Seq<u8>, Seq<u8>)>, token: Seq<u8>) -> Option<Seq<u8>> {
    if knows(bindings, token) {
        Some(bindings[choose|i: int| 0 <= i < bindings.len() && bindings[i].0 == token].1)
    } else {
        None
    }
}

/// Among unique tokens, the binding that carries a token decides its file.
pub proof fn lemma_path_of_binding(bindings: Seq<(Seq<u8>, Seq<u8>)>, i: int)
    requires
        tokens_unique(bindings),
        0 <= i < bindings.len(),
    ensures
        path_of(bindings, bindings[i].0) == Some(bindings[i].1),
{
    let token = bindings[i].0;
    let j = choose|j: int| 0 <= j < bindings.len() && bindings[j].0 == token;
    assert(i == j);
}

/// Two tokens of a unique table are never bound to the same file.
pub proof fn lemma_tokens_control_distinct_files(
    bindings: Seq<(Seq<u8>, Seq<u8>)>,
    a: Seq<u8>,
    b: Seq<u8>,
)
    requires
        tokens_unique(bindings),
        paths_unique(bindings),
        knows(bindings, a),
        knows(bindings, b),
        a != b,
    ensures
        path_of(bindings, a) != path_of(bindings, b),
{
    let i = choose|i: int| 0 <= i < bindings.len() && bindings[i].0 == a;
    let j = choose|j: int| 0 <= j < bindings.len() && bindings[j].0 == b;
    assert(i != j);
}

/// The immutable table of bindings.
#[derive(Debug)]
pub struct TokenRegistry {
    bindings: Vec<FileBinding>,
}

impl View for TokenRegistry {
    type V = Seq<(Seq<u8>, Seq<u8>)>;

    closed spec fn view(&self) -> Seq<(Seq<u8>, Seq<u8>)> {
        pairs(self.bindings@)
    }
}

/// Tells whether two of the bindings carry the same token.
fn repeats_token(bindings: &Vec<FileBinding>) -> (r: bool)
    ensures
        r == !tokens_unique(pairs(bindings@)),
{
    let count = bindings.len();
    let mut i: usize = 0;
    while i < count
        invariant
            count == bindings@.len(),
            i <= count,
            forall|a: int, b: int|
                0 <= a < i && a < b < count ==> pairs(bindings@)[a].0 != pairs(bindings@)[b].0,
        decreases count - i,
    {
        let mut j: usize = i + 1;
        while j < count
            invariant
                count == bindings@.len(),
                i < j <= count,
                forall|b: int| i < b < j ==> pairs(bindings@)[i as int].0 != pairs(bindings@)[b].0,
            decreases count - j,
        {
            if bytes_equal(bindings[i].token.as_slice(), bindings[j].token.as_slice()) {
                assert(pairs(bindings@)[i as int].0 == pairs(bindings@)[j as int].0);
                return true;
            }
            j += 1;
        }
        i += 1;
    }
    false
}

/// Tells whether two of the bindings name the same file.
fn repeats_path(bindings: &Vec<FileBinding>) -> (r: bool)
    ensures
        r == !paths_unique(pairs(bindings@)),
{
    let count = bindings.len();
    let mut i: usize = 0;
    while i < count
        invariant
            count == bindings@.len(),
            i <= count,
            forall|a: int, b: int|
                0 <= a < i && a < b < count ==> pairs(bindings@)[a].1 != pairs(bindings@)[b].1,
        decreases count - i,
    {
        let mut j: usize = i + 1;
        while j < count
            invariant
                count == bindings@.len(),
                i < j <= count,
                forall|b: int| i < b < j ==> pairs(bindings@)[i as int].1 != pairs(bindings@)[b].1,
            decreases count - j,
        {
            if bytes_equal(bindings[i].path.as_slice(), bindings[j].path.as_slice()) {
                assert(pairs(bindings@)[i as int].1 == pairs(bindings@)[j as int].1);
                return true;
            }
            j += 1;
        }
        i += 1;
    }
    false
}

impl TokenRegistry {
    #[verifier::type_invariant]
    spec fn unique(&self) -> bool {
        tokens_unique(pairs(self.bindings@)) && paths_unique(pairs(self.bindings@))
    }

    /// Builds the table. Bindings that share a token are refused, and so are
    /// bindings that share a file; a repeated token is reported before a
    /// repeated file. Nothing is dropped or merged.
    pub fn new(bindings: Vec<FileBinding>) -> (r: Result<TokenRegistry, ConfigError>)
        ensures
            match r {
                Ok(registry) => {
                    &&& registry@ == pairs(bindings@)
                    &&& tokens_unique(registry@)
                    &&& paths_unique(registry@)
                },
                Err(ConfigError::DuplicateToken) => !tokens_unique(pairs(bindings@)),
                Err(ConfigError::DuplicateFilename) => {
                    &&& tokens_unique(pairs(bindings@))
                    &&& !paths_unique(pairs(bindings@))
                },
            },
    {
        if repeats_token(&bindings) {
            return Err(ConfigError::DuplicateToken);
        }
        if repeats_path(&bindings) {
            return Err(ConfigError::DuplicateFilename);
        }
        Ok(TokenRegistry { bindings })
    }

    /// The file that `token` is bound to; `None` where no binding carries it.
    pub fn lookup(&self, token: &[u8]) -> (r: Option<&Vec<u8>>)
        ensures
            match r {
                Some(path) => path_of(self@, token@) == Some(path@),
                None => path_of(self@, token@) is None,
            },
            tokens_unique(self@),
            paths_unique(self@),
    {
        proof {
            use_type_invariant(self);
        }
        let count = self.bindings.len();
        let mut i: usize = 0;
        while i < count
            invariant
                count == self.bindings@.len(),
                i <= count,
                tokens_unique(self@),
                paths_unique(self@),
                self@ == pairs(self.bindings@),
                forall|k: int| 0 <= k < i ==> self@[k].0 != token@,
            decreases count - i,
        {
            if bytes_equal(self.bindings[i].token.as_slice(), token) {
                proof {
                    lemma_path_of_binding(self@, i as int);
                }
                return Some(&self.bindings[i].path);
            }
            i += 1;
        }
        None
    }

    /// The number of bindings.
    pub fn len(&self) -> (r: usize)
        ensures
            r == self@.len(),
    {
        self.bindings.len()
    }
}

} // verus!
