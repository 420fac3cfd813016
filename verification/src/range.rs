//! Inclusive spans of version numbers.

use vstd::prelude::*;

use crate::error::ErrorKind;

verus! {

/// The versions `from..=to` for which a field exists; without `to`, every
/// version from `from` on.
///
/// A range may be built with `to` below `from`. Such a range is not rejected
/// when it is built but the first time a version is tested against it, by
/// [`VersionRange::contains`].
#[derive(Clone, Copy, Debug, PartialEq, Eq)]
pub struct VersionRange {
    pub from: usize,
    pub to: Option<usize>,
}

impl VersionRange {
    /// Whether the range does not end before it starts.
    pub open spec fn is_valid(self) -> bool {
        self.to matches Some(to) ==> self.from <= to
    }

    /// Whether `version` lies within the bounds.
    pub open spec fn covers(self, version: int) -> bool {
        &&& self.from <= version
        &&& self.to matches Some(to) ==> version <= to
    }

    /// The highest version that the range mentions.
    pub open spec fn spec_highest(self) -> int {
        match self.to {
            Some(to) if to > self.from => to as int,
            _ => self.from as int,
        }
    }

    /// The range that two bounds give once they have been read, or
    /// [`ErrorKind::MalformedAnnotation`] where one of them could not be.
    pub open spec fn spec_from_parsed(from: Option<usize>, to: Option<Option<usize>>) -> Result<
        VersionRange,
        ErrorKind,
    > {
        match (from, to) {
            (Some(from), None) => Ok(VersionRange { from, to: None }),
            (Some(from), Some(Some(to))) => Ok(VersionRange { from, to: Some(to) }),
            _ => Err(ErrorKind::MalformedAnnotation),
        }
    }

    /// A range with the given bounds, which are not compared.
    pub fn new(from: usize, to: Option<usize>) -> (range: VersionRange)
        ensures
            range == (VersionRange { from, to }),
    {
        VersionRange { from, to }
    }

    /// Builds a range from what reading its two bounds gave.
    ///
    /// `from` is `None` where the lower bound is not a version number. `to` is
    /// `None` where the directive names no upper bound, and `Some(None)` where
    /// it names one that is not a version number.
    pub fn from_parsed(from: Option<usize>, to: Option<Option<usize>>) -> (res: Result<
        VersionRange,
        ErrorKind,
    >)
        ensures
            res == Self::spec_from_parsed(from, to),
    {
        match from {
            None => Err(ErrorKind::MalformedAnnotation),
            Some(from) => match to {
                None => Ok(VersionRange { from, to: None }),
                Some(None) => Err(ErrorKind::MalformedAnnotation),
                Some(Some(to)) => Ok(VersionRange { from, to: Some(to) }),
            },
        }
    }

    /// Tests whether a field with this range exists in `version`.
    ///
    /// This is where a range that ends before it starts is rejected,
    /// whatever `version` is.
    pub fn contains(&self, version: usize) -> (res: Result<bool, ErrorKind>)
        ensures
            res == if self.is_valid() {
                Ok::<bool, ErrorKind>(self.covers(version as int))
            } else {
                Err::<bool, ErrorKind>(ErrorKind::InvalidRange)
            },
    {
        match self.to {
            Some(to) => {
                if self.from > to {
                    Err(ErrorKind::InvalidRange)
                } else {
                    Ok(self.from <= version && version <= to)
                }
            },
            None => Ok(self.from <= version),
        }
    }

    /// The highest version that the range mentions: the larger of its bounds.
    pub fn highest(&self) -> (version: usize)
        ensures
            version == self.spec_highest(),
    {
        match self.to {
            Some(to) => if to > self.from { to } else { self.from },
            None => self.from,
        }
    }
}

} // verus!
