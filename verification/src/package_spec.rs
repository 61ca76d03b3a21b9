//! Package specs: `brew:name`, `brew:name@version`, `brew:name@cask` and
//! `cargo:name`, naming what installs a package.

use vstd::prelude::*;

use crate::error::Error;
use crate::text::{first_idx, lemma_first_idx, owned, str_chars, str_eq, string_from_range};

verus! {

/// How a Homebrew package is stored: a formula, optionally pinned to a
/// version, or a cask.
#[derive(Debug, Clone, PartialEq)]
pub enum StoredBrewPackage {
    Brew { version: Option<String> },
    Cask,
}

impl StoredBrewPackage {
    /// The package of this kind called `name`.
    pub fn into_package(self, name: String) -> (r: BrewPackage)
        ensures
            r.name() == name@,
            r.kind() == kind_of(self),
    {
        BrewPackage { name, stored: self }
    }
}

/// A Homebrew package.
#[derive(Debug, Clone, PartialEq)]
pub struct BrewPackage {
    name: String,
    stored: StoredBrewPackage,
}

impl BrewPackage {
    pub closed spec fn name(&self) -> Seq<char> {
        self.name@
    }

    pub closed spec fn kind(&self) -> BrewKind {
        kind_of(self.stored)
    }

    /// The argument `brew install` takes for a formula: the name, with
    /// `@version` when pinned; nothing for a cask.
    pub fn brew_spec(&self) -> (r: Option<String>)
        ensures
            match self.kind() {
                BrewKind::Formula(Some(v)) => r matches Some(s) && s@ == self.name() + "@"@ + v,
                BrewKind::Formula(None) => r matches Some(s) && s@ == self.name(),
                BrewKind::Cask => r is None,
            },
    {
        match &self.stored {
            StoredBrewPackage::Brew { version } => match version {
                Some(v) => {
                    let mut s = owned(self.name.as_str());
                    s.append("@");
                    s.append(v.as_str());
                    Some(s)
                },
                None => Some(owned(self.name.as_str())),
            },
            StoredBrewPackage::Cask => None,
        }
    }

    /// The argument `brew install --cask` takes: the name of a cask;
    /// nothing for a formula.
    pub fn cask_spec(&self) -> (r: Option<String>)
        ensures
            match self.kind() {
                BrewKind::Cask => r matches Some(s) && s@ == self.name(),
                _ => r is None,
            },
    {
        match &self.stored {
            StoredBrewPackage::Brew { .. } => None,
            StoredBrewPackage::Cask => Some(owned(self.name.as_str())),
        }
    }

    /// A formula when `version` is empty, a cask when it is `cask`, and a
    /// formula pinned to `version` otherwise.
    pub fn from_split_spec(name: &str, version: &str) -> (r: Result<BrewPackage, Error>)
        ensures
            r matches Ok(p) && p.name() == name@ && p.kind() == brew_kind(version@),
    {
        if version.unicode_len() == 0 {
            Ok(BrewPackage { name: owned(name), stored: StoredBrewPackage::Brew { version: None } })
        } else if str_eq(version, "cask") {
            Ok(BrewPackage { name: owned(name), stored: StoredBrewPackage::Cask })
        } else {
            Ok(BrewPackage { name: owned(name), stored: StoredBrewPackage::Brew { version: Some(owned(version)) } })
        }
    }

    /// The package's name, as it displays.
    pub fn to_string(&self) -> (r: String)
        ensures
            r@ == self.name(),
    {
        owned(self.name.as_str())
    }
}

/// What kind of Homebrew package, at the level of specifications.
pub ghost enum BrewKind {
    Formula(Option<Seq<char>>),
    Cask,
}

/// The kind a stored form holds.
pub open spec fn kind_of(stored: StoredBrewPackage) -> BrewKind {
    match stored {
        StoredBrewPackage::Brew { version } => BrewKind::Formula(
            match version {
                Some(v) => Some(v@),
                None => None,
            },
        ),
        StoredBrewPackage::Cask => BrewKind::Cask,
    }
}

/// The kind a version part selects: a formula when empty, a cask when
/// `cask`, a formula pinned to it otherwise.
pub open spec fn brew_kind(version: Seq<char>) -> BrewKind {
    if version.len() == 0 {
        BrewKind::Formula(None)
    } else if version == "cask"@ {
        BrewKind::Cask
    } else {
        BrewKind::Formula(Some(version))
    }
}

/// How a Cargo package is stored: the latest release on crates.io.
#[derive(Debug, Clone, PartialEq)]
pub enum StoredCargoPackage {
    CratesIo,
}

impl StoredCargoPackage {
    /// The package of this kind called `name`.
    pub fn into_package(self, name: String) -> (r: CargoPackage)
        ensures
            r.name() == name@,
    {
        CargoPackage { name, stored: self }
    }
}

/// A Cargo package.
#[derive(Debug, Clone, PartialEq)]
pub struct CargoPackage {
    name: String,
    stored: StoredCargoPackage,
}

impl CargoPackage {
    pub closed spec fn name(&self) -> Seq<char> {
        self.name@
    }

    /// The crate's name when it installs the latest release from crates.io.
    pub fn get_name_if_crates_io_latest(&self) -> (r: Option<String>)
        ensures
            r matches Some(s) && s@ == self.name(),
    {
        match &self.stored {
            StoredCargoPackage::CratesIo => Some(owned(self.name.as_str())),
        }
    }

    /// The latest crates.io release of `name`; pinned versions are not
    /// supported.
    pub fn from_split_spec(name: &str, version: &str) -> (r: Result<CargoPackage, Error>)
        requires
            version@.len() == 0,
        ensures
            r matches Ok(p) && p.name() == name@,
    {
        Ok(CargoPackage { name: owned(name), stored: StoredCargoPackage::CratesIo })
    }

    /// The package's name, as it displays.
    pub fn to_string(&self) -> (r: String)
        ensures
            r@ == self.name(),
    {
        owned(self.name.as_str())
    }
}

/// A package and the manager that installs it.
#[derive(Debug, Clone, PartialEq)]
pub enum PackageSpec {
    Brew(BrewPackage),
    Cargo(CargoPackage),
}

/// The message of an unknown-kind error names the kind and the package.
pub open spec fn unknown_kind(e: Error, kind: Seq<char>, name: Seq<char>) -> bool {
    e matches Error::UnknownPackageKind(k, n) && k@ == kind && n@ == name
}

impl PackageSpec {
    /// A package of the manager named `kind` (`cargo` or `brew`).
    pub fn from_split_spec(kind: &str, name: &str, version: &str) -> (r: Result<PackageSpec, Error>)
        requires
            kind@ == "cargo"@ ==> version@.len() == 0,
        ensures
            kind@ == "cargo"@ ==> (r matches Ok(PackageSpec::Cargo(p)) && p.name() == name@),
            kind@ == "brew"@ ==> (r matches Ok(PackageSpec::Brew(p)) && p.name() == name@ && p.kind()
                == brew_kind(version@)),
            kind@ != "cargo"@ && kind@ != "brew"@ ==> (r matches Err(e) && unknown_kind(e, kind@, name@)),
    {
        proof {
            reveal_strlit("brew");
            reveal_strlit("cargo");
            assert("brew"@ != "cargo"@) by {
                assert("brew"@[0] != "cargo"@[0]);
            }
        }
        if str_eq(kind, "cargo") {
            match CargoPackage::from_split_spec(name, version) {
                Ok(p) => Ok(PackageSpec::Cargo(p)),
                Err(e) => Err(e),
            }
        } else if str_eq(kind, "brew") {
            match BrewPackage::from_split_spec(name, version) {
                Ok(p) => Ok(PackageSpec::Brew(p)),
                Err(e) => Err(e),
            }
        } else {
            Err(Error::UnknownPackageKind(owned(kind), owned(name)))
        }
    }

    /// Parse `<kind>:<name>` or `<kind>:<name>@<version>`.
    pub fn parse(s: &str) -> (r: Result<PackageSpec, Error>)
        requires
            spec_kind(s@) == "cargo"@ ==> spec_version(s@).len() == 0,
        ensures
            first_idx(s@, ':') == s@.len() ==> (r matches Err(e) && e matches Error::InvalidPackageSpec(t, why)
                && t@ == s@ && why@ == "Expected <kind>:..."@),
            first_idx(s@, ':') < s@.len() ==> {
                let (kind, name, version) = (spec_kind(s@), spec_name(s@), spec_version(s@));
                &&& kind == "cargo"@ ==> (r matches Ok(PackageSpec::Cargo(p)) && p.name() == name)
                &&& kind == "brew"@ ==> (r matches Ok(PackageSpec::Brew(p)) && p.name() == name && p.kind()
                    == brew_kind(version))
                &&& kind != "cargo"@ && kind != "brew"@ ==> (r matches Err(e) && unknown_kind(e, kind, name))
            },
    {
        let cs = str_chars(s);
        proof {
            lemma_first_idx(s@, ':');
        }
        let mut i: usize = 0;
        while i < cs.len() && cs[i] != ':'
            invariant
                cs@ == s@,
                i <= cs@.len(),
                forall|k: int| 0 <= k < i ==> cs@[k] != ':',
            decreases cs@.len() - i,
        {
            i = i + 1;
        }
        proof {
            crate::text::lemma_first_idx_at(s@, ':', i as int);
        }
        if i == cs.len() {
            return Err(Error::InvalidPackageSpec(owned(s), owned("Expected <kind>:...")));
        }
        let kind = string_from_range(cs.as_slice(), 0, i);
        let remain = string_from_range(cs.as_slice(), i + 1, cs.len());
        let rs = str_chars(remain.as_str());
        proof {
            lemma_first_idx(remain@, '@');
        }
        let mut j: usize = 0;
        while j < rs.len() && rs[j] != '@'
            invariant
                rs@ == remain@,
                j <= rs@.len(),
                forall|k: int| 0 <= k < j ==> rs@[k] != '@',
            decreases rs@.len() - j,
        {
            j = j + 1;
        }
        proof {
            crate::text::lemma_first_idx_at(remain@, '@', j as int);
        }
        let (name, version) = if j == rs.len() {
            (owned(remain.as_str()), String::new())
        } else {
            (string_from_range(rs.as_slice(), 0, j), string_from_range(rs.as_slice(), j + 1, rs.len()))
        };
        proof {
            assert(kind@ == spec_kind(s@));
            assert(remain@ == spec_remain(s@));
            if j == rs.len() {
                assert(rs@.subrange(0, j as int) =~= rs@);
            }
            assert(name@ == spec_name(s@));
            assert(version@ == spec_version(s@));
        }
        PackageSpec::from_split_spec(kind.as_str(), name.as_str(), version.as_str())
    }

    /// The Homebrew package, when it is one.
    pub fn brew_package(&self) -> (r: Option<&BrewPackage>)
        ensures
            match self {
                PackageSpec::Brew(p) => r == Some(p),
                _ => r is None,
            },
    {
        match self {
            PackageSpec::Brew(p) => Some(p),
            _ => None,
        }
    }

    /// The Cargo package, when it is one.
    pub fn cargo_package(&self) -> (r: Option<&CargoPackage>)
        ensures
            match self {
                PackageSpec::Cargo(p) => r == Some(p),
                _ => r is None,
            },
    {
        match self {
            PackageSpec::Cargo(p) => Some(p),
            _ => None,
        }
    }

    pub fn is_brew(&self) -> (r: bool)
        ensures
            r == self is Brew,
    {
        match self {
            PackageSpec::Brew(_) => true,
            _ => false,
        }
    }

    pub fn is_cargo(&self) -> (r: bool)
        ensures
            r == self is Cargo,
    {
        match self {
            PackageSpec::Cargo(_) => true,
            _ => false,
        }
    }

    /// The package's name, as it displays.
    pub fn to_string(&self) -> (r: String)
        ensures
            r@ == match self {
                PackageSpec::Brew(p) => p.name(),
                PackageSpec::Cargo(p) => p.name(),
            },
    {
        match self {
            PackageSpec::Brew(p) => p.to_string(),
            PackageSpec::Cargo(p) => p.to_string(),
        }
    }
}

/// The part of a spec before the first `:`.
pub open spec fn spec_kind(s: Seq<char>) -> Seq<char> {
    s.take(first_idx(s, ':'))
}

/// The part of a spec after the first `:`.
pub open spec fn spec_remain(s: Seq<char>) -> Seq<char> {
    s.skip(first_idx(s, ':') + 1)
}

/// The name: what follows the `:` up to the first `@`.
pub open spec fn spec_name(s: Seq<char>) -> Seq<char> {
    let r = spec_remain(s);
    r.take(first_idx(r, '@'))
}

/// The version: what follows the first `@` after the `:`, or nothing.
pub open spec fn spec_version(s: Seq<char>) -> Seq<char> {
    let r = spec_remain(s);
    let j = first_idx(r, '@');
    if j < r.len() {
        r.skip(j + 1)
    } else {
        Seq::empty()
    }
}

} // verus!
