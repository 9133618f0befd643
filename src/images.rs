//! Weather kinds, each carrying the images of that weather.
use vstd::prelude::*;
use vstd::string::StringSliceAdditionalSpecFns;

verus! {

/// Byte-wise equality of two strings.
pub fn same_text(a: &str, b: &str) -> (r: bool)
    ensures
        r == (a.spec_bytes() == b.spec_bytes()),
{
    let x = a.as_bytes();
    let y = b.as_bytes();
    if x.len() != y.len() {
        return false;
    }
    let mut i: usize = 0;
    while i < x.len()
        invariant
            x@ == a.spec_bytes(),
            y@ == b.spec_bytes(),
            x@.len() == y@.len(),
            i <= x@.len(),
            forall|k: int| 0 <= k < i ==> x@[k] == y@[k],
        decreases x@.len() - i,
    {
        if x[i] != y[i] {
            return false;
        }
        i = i + 1;
    }
    assert(x@ =~= y@);
    true
}

/// A weather kind with its images `I`.
#[derive(Debug)]
pub enum WeatherImage<I> {
    Rain(I),
    Fallout(I),
    Storm(I),
    Sun(I),
    Drizzle(I),
}

/// The kind that a name selects: `"fallout"`, `"storm"`, `"sun"` and
/// `"drizzle"` select their own kind; any other name selects rain.
pub open spec fn kind_named<I>(name: &str, img: I) -> WeatherImage<I> {
    if name.spec_bytes() == "fallout".spec_bytes() {
        WeatherImage::Fallout(img)
    } else if name.spec_bytes() == "storm".spec_bytes() {
        WeatherImage::Storm(img)
    } else if name.spec_bytes() == "sun".spec_bytes() {
        WeatherImage::Sun(img)
    } else if name.spec_bytes() == "drizzle".spec_bytes() {
        WeatherImage::Drizzle(img)
    } else {
        WeatherImage::Rain(img)
    }
}

impl<I> WeatherImage<I> {
    pub fn new(name: &str, img: I) -> (w: WeatherImage<I>)
        ensures
            w == kind_named(name, img),
    {
        if same_text(name, "fallout") {
            WeatherImage::Fallout(img)
        } else if same_text(name, "storm") {
            WeatherImage::Storm(img)
        } else if same_text(name, "sun") {
            WeatherImage::Sun(img)
        } else if same_text(name, "drizzle") {
            WeatherImage::Drizzle(img)
        } else {
            WeatherImage::Rain(img)
        }
    }

    pub fn image(&self) -> (r: &I)
        ensures
            match *self {
                WeatherImage::Rain(i) => *r == i,
                WeatherImage::Fallout(i) => *r == i,
                WeatherImage::Storm(i) => *r == i,
                WeatherImage::Sun(i) => *r == i,
                WeatherImage::Drizzle(i) => *r == i,
            },
    {
        match self {
            WeatherImage::Rain(i) => i,
            WeatherImage::Fallout(i) => i,
            WeatherImage::Storm(i) => i,
            WeatherImage::Sun(i) => i,
            WeatherImage::Drizzle(i) => i,
        }
    }

    /// The kind's name.
    pub fn name(&self) -> (r: &'static str)
        ensures
            self is Rain ==> r == "rain",
            self is Fallout ==> r == "fallout",
            self is Storm ==> r == "storm",
            self is Sun ==> r == "sun",
            self is Drizzle ==> r == "drizzle",
    {
        match self {
            WeatherImage::Rain(_) => "rain",
            WeatherImage::Fallout(_) => "fallout",
            WeatherImage::Storm(_) => "storm",
            WeatherImage::Sun(_) => "sun",
            WeatherImage::Drizzle(_) => "drizzle",
        }
    }
}

} // verus!
