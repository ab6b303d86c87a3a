//! The deployment's settings and the rules that read them.
use crate::auth::CheckToken;
use vstd::prelude::*;
use vstd::string::StringExecFns;

verus! {

/// One image set: where its files lie and, if it is gated, its secret.
#[derive(Debug, PartialEq, Eq)]
pub struct ImageSpec {
    pub path: String,
    pub token: Option<String>,
}

/// The settings of a deployment. `images` lists the image sets by name.
#[derive(Debug, PartialEq, Eq)]
pub struct Config {
    pub wingsearch: String,
    pub default_images: String,
    pub images: Vec<(String, ImageSpec)>,
    pub new_bird_interval: u64,
}

/// What makes a configuration unusable.
#[derive(Debug, Clone, Copy, PartialEq, Eq, Structural)]
pub enum ConfigError {
    /// `default_images` names no configured set.
    DefaultSetMissing,
    /// A set is named `_`, the name that stands for the default set in URLs.
    ReservedSetName,
}

/// The position of the first set named `name`, or the number of sets where
/// there is none.
pub open spec fn position_of(images: Seq<(String, ImageSpec)>, name: Seq<char>) -> int
    decreases images.len(),
{
    if images.len() == 0 {
        0
    } else if images[0].0@ == name {
        0
    } else {
        1 + position_of(images.skip(1), name)
    }
}

/// `position_of` is the least position of a set named `name`.
pub proof fn position_of_is_first(images: Seq<(String, ImageSpec)>, name: Seq<char>)
    ensures
        0 <= position_of(images, name) <= images.len(),
        position_of(images, name) < images.len() ==> images[position_of(images, name)].0@ == name,
        forall|j: int| 0 <= j < position_of(images, name) ==> (#[trigger] images[j]).0@ != name,
    decreases images.len(),
{
    if images.len() > 0 && images[0].0@ != name {
        let rest = images.skip(1);
        position_of_is_first(rest, name);
        assert forall|j: int| 0 <= j < position_of(images, name) implies (#[trigger] images[j]).0@
            != name by {
            if j > 0 {
                assert(rest[j - 1] == images[j]);
            }
        }
    }
}

/// The URL prefix under which the set `set_name` is served.
pub open spec fn prefix_of(set_name: Seq<char>) -> Seq<char> {
    "/images/"@ + set_name
}

/// The URL prefix under which the set `set_name` is served.
pub fn image_prefix(set_name: &str) -> (r: String)
    ensures
        r@ == prefix_of(set_name@),
{
    String::from_str("/images/").concat(set_name)
}

/// Where a request for `image_path` without a set of its own is sent: to the
/// same path under the default set.
pub fn redirect_target(default_images: &str, image_path: &str) -> (r: String)
    ensures
        r@ == prefix_of(default_images@) + "/"@ + image_path@,
{
    image_prefix(default_images).concat("/").concat(image_path)
}

impl ImageSpec {
    /// The check that guards the set: one for its secret where it has one,
    /// none where the set is open.
    pub fn guard(&self) -> (r: Option<CheckToken>)
        ensures
            match self.token {
                Some(t) => r is Some && r.unwrap().expected_header() == crate::auth::header_for(t@),
                None => r is None,
            },
    {
        match &self.token {
            Some(t) => Some(CheckToken::new(t.as_str())),
            None => None,
        }
    }
}

impl Config {
    /// The position in `images` of the first set named `name`.
    pub fn find_set(&self, name: &String) -> (r: Option<usize>)
        ensures
            match r {
                Some(i) => i == position_of(self.images@, name@) && i < self.images.len(),
                None => position_of(self.images@, name@) == self.images.len(),
            },
    {
        let mut i: usize = 0;
        assert(self.images@.skip(0) =~= self.images@);
        while i < self.images.len()
            invariant
                i <= self.images.len(),
                position_of(self.images@, name@) == i + position_of(
                    self.images@.skip(i as int),
                    name@,
                ),
            decreases self.images.len() - i,
        {
            proof {
                let rest = self.images@.skip(i as int);
                assert(rest[0] == self.images@[i as int]);
                assert(rest.skip(1) =~= self.images@.skip(i + 1));
            }
            if self.images[i].0 == *name {
                return Some(i);
            }
            i += 1;
        }
        None
    }

    /// The default set, where `default_images` names one.
    pub fn default_set(&self) -> (r: Option<&ImageSpec>)
        ensures
            match r {
                Some(s) => position_of(self.images@, self.default_images@) < self.images.len()
                    && *s == self.images[position_of(self.images@, self.default_images@)].1,
                None => position_of(self.images@, self.default_images@) == self.images.len(),
            },
    {
        match self.find_set(&self.default_images) {
            Some(i) => Some(&self.images[i].1),
            None => None,
        }
    }

    /// Whether the image sets can be served: the default set must be among
    /// them, and none may be named `_`. A missing default set is reported
    /// first.
    pub fn check_images(&self) -> (r: Result<(), ConfigError>)
        ensures
            r == Err::<(), ConfigError>(ConfigError::DefaultSetMissing) <==> position_of(
                self.images@,
                self.default_images@,
            ) == self.images.len(),
            r is Ok <==> position_of(self.images@, self.default_images@) < self.images.len()
                && position_of(self.images@, "_"@) == self.images.len(),
    {
        proof {
            position_of_is_first(self.images@, self.default_images@);
        }
        if self.find_set(&self.default_images).is_none() {
            return Err(ConfigError::DefaultSetMissing);
        }
        let reserved = String::from_str("_");
        match self.find_set(&reserved) {
            Some(_) => Err(ConfigError::ReservedSetName),
            None => Ok(()),
        }
    }
}

} // verus!
