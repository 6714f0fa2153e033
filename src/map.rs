use vstd::prelude::*;

verus! {

/// The dimensions a map document declares for its grid.
#[derive(Clone, Copy, Debug, PartialEq, Eq, Structural)]
pub struct MapMeta {
    pub height: usize,
    pub width: usize,
}

/// A grid of terrain glyphs: `map` holds one string per row.
#[derive(Clone, Debug)]
pub struct WorldMap {
    pub map: Vec<String>,
    pub meta: MapMeta,
}

/// Why a map could not be read, decoded, accepted or written.
#[derive(Clone, Copy, Debug, PartialEq, Eq, Structural)]
pub enum Error {
    /// The stored document could not be read.
    ReadDBError,
    /// The stored document could not be decoded into the map schema.
    ParseDBError,
    /// The document decoded, but its rows disagree with its declared size.
    InvariantError,
    /// The document could not be written.
    WriteDBError,
}

impl WorldMap {
    /// The rows of the grid, each as its sequence of characters.
    pub open spec fn rows(&self) -> Seq<Seq<char>> {
        Seq::new(self.map@.len(), |i: int| self.map@[i]@)
    }

    /// As many rows as the declared height, each exactly as wide as the
    /// declared width.
    pub open spec fn wf(&self) -> bool {
        &&& self.map@.len() == self.meta.height
        &&& forall|i: int| 0 <= i < self.map@.len() ==> #[trigger] self.map@[i]@.len() == self.meta.width
    }

    /// What accepting a decoded map yields: the map itself when it is
    /// consistent, an invariant error otherwise.
    pub open spec fn validated(self) -> Result<WorldMap, Error> {
        if self.wf() {
            Ok(self)
        } else {
            Err(Error::InvariantError)
        }
    }

    /// Accepts a decoded map only if its rows agree with its declared size.
    pub fn validate(self) -> (r: Result<WorldMap, Error>)
        ensures
            r == self.validated(),
    {
        if self.map.len() != self.meta.height {
            return Err(Error::InvariantError);
        }
        let n = self.map.len();
        let mut i: usize = 0;
        while i < n
            invariant
                n == self.map@.len(),
                i <= n,
                forall|k: int| 0 <= k < i ==> #[trigger] self.map@[k]@.len() == self.meta.width,
            decreases n - i,
        {
            if self.map[i].as_str().unicode_len() != self.meta.width {
                return Err(Error::InvariantError);
            }
            i = i + 1;
        }
        Ok(self)
    }
}

/// Finishes loading a stored document: `None` means it could not be decoded
/// into the map schema; a decoded map must also be consistent.
pub fn check_decoded(decoded: Option<WorldMap>) -> (r: Result<WorldMap, Error>)
    ensures
        decoded is None ==> r == Err::<WorldMap, Error>(Error::ParseDBError),
        decoded matches Some(m) ==> r == m.validated(),
{
    match decoded {
        None => Err(Error::ParseDBError),
        Some(m) => m.validate(),
    }
}

/// Accepting a consistent map gives back that same map, rows and size
/// unchanged: the part of a save-and-load round trip that does not depend on
/// the document codec.
pub proof fn lemma_validate_keeps_valid_map(m: WorldMap)
    requires
        m.wf(),
    ensures
        m.validated() == Ok::<WorldMap, Error>(m),
{
}

/// A map whose row count or some row's width disagrees with its declared
/// size is refused with an invariant error.
pub proof fn lemma_validate_rejects_malformed(m: WorldMap)
    requires
        !m.wf(),
    ensures
        m.validated() == Err::<WorldMap, Error>(Error::InvariantError),
{
}

} // verus!
