//! Output encodings, display errors and the view transform registry.

use vstd::prelude::*;
use vstd::utf8::encode_utf8;

use crate::bytes::{
    bytes_lt, lemma_bytes_lt_irreflexive, lemma_bytes_lt_transitive, order_bytes, KeyOrder,
};

verus! {

/// The closed set of output encodings (one per swapchain path).
#[derive(Debug, Clone, Copy, PartialEq, Eq, Structural)]
pub enum OutputEncoding {
    /// SDR (Rec.709, BT.1886 gamma 2.4, full range).
    SdrBt1886,
    /// scRGB (Rec.709 primaries, linear, 1.0 = 80 nits).
    ScRgbLinear,
    /// PQ (ST 2084 absolute luminance, Rec.2020 primaries).
    PqSt2084Rec2020,
}

impl OutputEncoding {
    pub open spec fn spec_str(self) -> Seq<char> {
        match self {
            OutputEncoding::SdrBt1886 => "sdr_bt1886"@,
            OutputEncoding::ScRgbLinear => "scrgb_linear"@,
            OutputEncoding::PqSt2084Rec2020 => "pq_st2084_rec2020"@,
        }
    }

    pub fn as_str(&self) -> (r: &'static str)
        ensures
            r@ == self.spec_str(),
    {
        match self {
            OutputEncoding::SdrBt1886 => "sdr_bt1886",
            OutputEncoding::ScRgbLinear => "scrgb_linear",
            OutputEncoding::PqSt2084Rec2020 => "pq_st2084_rec2020",
        }
    }
}

/// Failure classes of the display pipeline (typed, fail-closed).
#[derive(Debug, Clone, PartialEq)]
pub enum DisplayError {
    /// A plugin name that was never registered.
    UnregisteredPlugin(String),
    /// A second plugin under a name already registered.
    DuplicatePlugin(String),
    /// A non-HDR swapchain asked to carry PQ output.
    PqOutputOnNonHdrSwapchain { path: &'static str },
    /// A path and an encoding outside the legal pairs.
    EncodingPathMismatch { path: &'static str, encoding: &'static str },
    /// A non-finite value in a stage's input or output.
    NonFiniteValue { stage: &'static str },
    /// The HDR calibration layer was consumed although it never triggered.
    HdrCalibrationNotTriggered { reason: &'static str },
}

/// The byte string under which a name is ordered (its UTF-8 encoding).
pub open spec fn name_key(n: Seq<char>) -> Seq<u8> {
    encode_utf8(n)
}

/// Registry of view transform plugins by name, kept in name order (the
/// order of `str` keys); a name is registered at most once.
pub struct ViewTransformRegistry<T> {
    names: Vec<&'static str>,
    plugins: Vec<T>,
    contents: Ghost<Map<Seq<char>, T>>,
}

impl<T> View for ViewTransformRegistry<T> {
    type V = Map<Seq<char>, T>;

    closed spec fn view(&self) -> Map<Seq<char>, T> {
        self.contents@
    }
}

impl<T> ViewTransformRegistry<T> {
    /// The registered names, in order.
    pub closed spec fn spec_names(&self) -> Seq<Seq<char>> {
        self.names@.map_values(|n: &'static str| n@)
    }

    /// Well-formedness: names strictly increasing, one plugin per name, and
    /// the contents map each name to its plugin.
    pub closed spec fn wf(&self) -> bool {
        &&& self.names@.len() == self.plugins@.len()
        &&& forall|i: int, j: int|
            0 <= i < j < self.names@.len() ==> bytes_lt(
                name_key(#[trigger] self.names@[i]@),
                name_key(#[trigger] self.names@[j]@),
            )
        &&& forall|k: Seq<char>|
            #![trigger self.contents@.contains_key(k)]
            self.contents@.contains_key(k) <==> exists|i: int|
                0 <= i < self.names@.len() && self.names@[i]@ == k
        &&& forall|i: int|
            0 <= i < self.names@.len() ==> self.contents@[#[trigger] self.names@[i]@]
                == self.plugins@[i]
    }

    /// An empty registry.
    pub fn empty() -> (r: Self)
        ensures
            r.wf(),
            r@ == Map::<Seq<char>, T>::empty(),
    {
        ViewTransformRegistry {
            names: Vec::new(),
            plugins: Vec::new(),
            contents: Ghost(Map::empty()),
        }
    }

    /// Registers `plugin` under `id`; a name already registered is refused
    /// with `DuplicatePlugin` and leaves the registry unchanged.
    pub fn register(&mut self, id: &'static str, plugin: T) -> (r: Result<(), DisplayError>)
        requires
            old(self).wf(),
        ensures
            final(self).wf(),
            r is Ok <==> !old(self)@.contains_key(id@),
            r is Ok ==> final(self)@ == old(self)@.insert(id@, plugin),
            r is Err ==> final(self)@ == old(self)@ && (r matches Err(
                DisplayError::DuplicatePlugin(n),
            ) && n@ == id@),
    {
        let n = self.names.len();
        let key = id.as_bytes();
        let mut i: usize = 0;
        let mut found_same = false;
        while i < n
            invariant_except_break
                !found_same,
            invariant
                n == self.names@.len(),
                self == old(self),
                key@ == name_key(id@),
                i <= n,
                forall|k: int| 0 <= k < i ==> bytes_lt(name_key(#[trigger] self.names@[k]@), key@),
            ensures
                i == n ==> !found_same,
                i <= n,
                forall|k: int| 0 <= k < i ==> bytes_lt(name_key(#[trigger] self.names@[k]@), key@),
                i < n ==> (found_same <==> name_key(self.names@[i as int]@) == key@),
                i < n && !found_same ==> bytes_lt(key@, name_key(self.names@[i as int]@)),
            decreases n - i,
        {
            let o = order_bytes(self.names[i].as_bytes(), key);
            if o == KeyOrder::Before {
                i = i + 1;
            } else {
                found_same = o == KeyOrder::Same;
                break;
            }
        }
        if found_same {
            proof {
                vstd::utf8::encode_utf8_decode_utf8(self.names@[i as int]@);
                vstd::utf8::encode_utf8_decode_utf8(id@);
                assert(self.names@[i as int]@ == id@);
            }
            return Err(DisplayError::DuplicatePlugin(id.to_owned()));
        }
        proof {
            assert forall|k: int| 0 <= k < n implies self.names@[k]@ != id@ by {
                if k < i {
                    lemma_bytes_lt_irreflexive(key@);
                } else {
                    if k > i {
                        lemma_bytes_lt_transitive(key@, name_key(self.names@[i as int]@), name_key(self.names@[k]@));
                    }
                    lemma_bytes_lt_irreflexive(key@);
                }
            }
            assert(!old(self)@.contains_key(id@));
        }
        let ghost old_names = self.names@;
        let ghost old_plugins = self.plugins@;
        let ghost old_map = self.contents@;
        self.names.insert(i, id);
        self.plugins.insert(i, plugin);
        self.contents = Ghost(old_map.insert(id@, plugin));
        proof {
            assert forall|a: int, b: int|
                0 <= a < b < self.names@.len() implies bytes_lt(
                name_key(#[trigger] self.names@[a]@),
                name_key(#[trigger] self.names@[b]@),
            ) by {
                if b < i {
                    assert(self.names@[a] == old_names[a]);
                    assert(self.names@[b] == old_names[b]);
                } else if b == i {
                    assert(self.names@[a] == old_names[a]);
                } else if a == i {
                    assert(self.names@[b] == old_names[b - 1]);
                    if b - 1 > i {
                        lemma_bytes_lt_transitive(key@, name_key(old_names[i as int]@), name_key(old_names[b - 1]@));
                    }
                } else if a < i {
                    assert(self.names@[a] == old_names[a]);
                    assert(self.names@[b] == old_names[b - 1]);
                } else {
                    assert(self.names@[a] == old_names[a - 1]);
                    assert(self.names@[b] == old_names[b - 1]);
                }
            }
            assert forall|k: Seq<char>|
                #![trigger self.contents@.contains_key(k)]
                self.contents@.contains_key(k) <==> exists|x: int|
                    0 <= x < self.names@.len() && self.names@[x]@ == k by {
                if self.contents@.contains_key(k) {
                    if k == id@ {
                        assert(self.names@[i as int]@ == k);
                    } else {
                        let x = choose|x: int| 0 <= x < old_names.len() && old_names[x]@ == k;
                        if x < i {
                            assert(self.names@[x] == old_names[x]);
                        } else {
                            assert(self.names@[x + 1] == old_names[x]);
                        }
                    }
                }
                if exists|x: int| 0 <= x < self.names@.len() && self.names@[x]@ == k {
                    let x = choose|x: int| 0 <= x < self.names@.len() && self.names@[x]@ == k;
                    if x < i {
                        assert(self.names@[x] == old_names[x]);
                    } else if x > i {
                        assert(self.names@[x] == old_names[x - 1]);
                    }
                }
            }
            assert forall|x: int|
                0 <= x < self.names@.len() implies self.contents@[#[trigger] self.names@[x]@]
                == self.plugins@[x] by {
                if x < i {
                    assert(self.names@[x] == old_names[x]);
                    assert(self.plugins@[x] == old_plugins[x]);
                } else if x > i {
                    assert(self.names@[x] == old_names[x - 1]);
                    assert(self.plugins@[x] == old_plugins[x - 1]);
                }
            }
        }
        Ok(())
    }

    /// The plugin registered under `name`; an unregistered name is refused
    /// with `UnregisteredPlugin`.
    pub fn get(&self, name: &str) -> (r: Result<&T, DisplayError>)
        requires
            self.wf(),
        ensures
            self@.contains_key(name@) ==> (r matches Ok(p) && *p == self@[name@]),
            !self@.contains_key(name@) ==> (r matches Err(DisplayError::UnregisteredPlugin(n))
                && n@ == name@),
    {
        let key = name.as_bytes();
        let n = self.names.len();
        let mut i: usize = 0;
        while i < n
            invariant
                n == self.names@.len(),
                self.wf(),
                key@ == name_key(name@),
                i <= n,
                forall|k: int| 0 <= k < i ==> #[trigger] self.names@[k]@ != name@,
            decreases n - i,
        {
            if order_bytes(self.names[i].as_bytes(), key) == KeyOrder::Same {
                proof {
                    vstd::utf8::encode_utf8_decode_utf8(self.names@[i as int]@);
                    vstd::utf8::encode_utf8_decode_utf8(name@);
                }
                return Ok(&self.plugins[i]);
            }
            i = i + 1;
        }
        Err(DisplayError::UnregisteredPlugin(name.to_owned()))
    }

    /// The registered names, in order (each once).
    pub fn registered_names(&self) -> (r: Vec<&'static str>)
        requires
            self.wf(),
        ensures
            r@.map_values(|n: &'static str| n@) == self.spec_names(),
            forall|k: Seq<char>| self@.contains_key(k) <==> #[trigger] self.spec_names().contains(k),
            forall|i: int, j: int|
                0 <= i < j < r@.len() ==> bytes_lt(
                    name_key(#[trigger] r@[i]@),
                    name_key(#[trigger] r@[j]@),
                ),
    {
        let r = self.names.clone();
        proof {
            assert forall|k: Seq<char>| self@.contains_key(k) <==> #[trigger] self.spec_names().contains(k) by {
                if self@.contains_key(k) {
                    let x = choose|x: int| 0 <= x < self.names@.len() && self.names@[x]@ == k;
                    assert(self.spec_names()[x] == k);
                }
                if self.spec_names().contains(k) {
                    let x = choose|x: int| 0 <= x < self.spec_names().len() && self.spec_names()[x] == k;
                    assert(self.names@[x]@ == k);
                }
            }
        }
        r
    }
}

/// What registration promises of lookup: after `id` is registered with
/// `plugin`, the registry finds `plugin` under `id` and finds every other
/// name as before; a refused duplicate changes nothing.
pub proof fn law_register_then_get<T>(before: Map<Seq<char>, T>, id: Seq<char>, plugin: T, k: Seq<char>)
    requires
        !before.contains_key(id),
    ensures
        before.insert(id, plugin).contains_key(id),
        before.insert(id, plugin)[id] == plugin,
        k != id ==> (before.insert(id, plugin).contains_key(k) == before.contains_key(k)),
        k != id && before.contains_key(k) ==> before.insert(id, plugin)[k] == before[k],
{
}

} // verus!
