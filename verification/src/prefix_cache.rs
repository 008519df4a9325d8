//! Builder of the three-layer system prompt and its frozen, serialised prefix.
//!
//! Layer 1 is stable (identity, rules), layer 2 holds context memory
//! (USER.md, MEMORY.md), layer 3 is volatile (time, profile). Freezing joins
//! the layers and serialises them once as the system message.

use vstd::prelude::*;
use crate::context::system_prefix;
use crate::json::role_content_json;
use vstd::string::StringExecFns;

verus! {

/// Three-layer prompt builder with an optional frozen prefix.
#[derive(Debug, Clone)]
pub struct PrefixCacheManager {
    layer1: String,
    layer2: String,
    layer3: String,
    frozen: Option<Vec<u8>>,
}

impl PrefixCacheManager {
    /// Text of layer 1.
    pub closed spec fn l1(&self) -> Seq<char> {
        self.layer1@
    }

    /// Text of layer 2.
    pub closed spec fn l2(&self) -> Seq<char> {
        self.layer2@
    }

    /// Text of layer 3.
    pub closed spec fn l3(&self) -> Seq<char> {
        self.layer3@
    }

    /// The frozen prefix bytes, once `freeze` has run.
    pub closed spec fn frozen_bytes(&self) -> Option<Seq<u8>> {
        match self.frozen {
            Some(v) => Some(v@),
            None => None,
        }
    }

    /// A manager with layer 1 set, empty layers 2 and 3, nothing frozen.
    pub fn new(layer1: &str) -> (m: PrefixCacheManager)
        ensures
            m.l1() == layer1@,
            m.l2() == Seq::<char>::empty(),
            m.l3() == Seq::<char>::empty(),
            m.frozen_bytes() == Option::<Seq<u8>>::None,
    {
        PrefixCacheManager {
            layer1: layer1.to_string(),
            layer2: String::new(),
            layer3: String::new(),
            frozen: None,
        }
    }

    /// Replaces layer 2; a prefix frozen earlier is kept as it was.
    pub fn set_layer2(&mut self, content: &str)
        ensures
            final(self).l2() == content@,
            final(self).l1() == old(self).l1(),
            final(self).l3() == old(self).l3(),
            final(self).frozen_bytes() == old(self).frozen_bytes(),
    {
        self.layer2 = content.to_string();
    }

    /// Replaces layer 3; a prefix frozen earlier is kept as it was.
    pub fn set_layer3(&mut self, content: &str)
        ensures
            final(self).l3() == content@,
            final(self).l1() == old(self).l1(),
            final(self).l2() == old(self).l2(),
            final(self).frozen_bytes() == old(self).frozen_bytes(),
    {
        self.layer3 = content.to_string();
    }

    /// Serialises the three layers, joined, as the system message, stores
    /// the bytes as the frozen prefix and returns them.
    pub fn freeze(&mut self) -> (r: Vec<u8>)
        ensures
            r@ == system_prefix(old(self).l1() + old(self).l2() + old(self).l3()),
            r@.len() > 0,
            final(self).frozen_bytes() == Some(r@),
            final(self).l1() == old(self).l1(),
            final(self).l2() == old(self).l2(),
            final(self).l3() == old(self).l3(),
    {
        let full = self.full_system_prompt();
        let bytes = role_content_json("system", full.as_str());
        self.frozen = Some(bytes.clone());
        bytes
    }

    /// The frozen prefix, if `freeze` has run.
    pub fn frozen_prefix(&self) -> (r: Option<&Vec<u8>>)
        ensures
            match r {
                Some(v) => self.frozen_bytes() == Some(v@),
                None => self.frozen_bytes() is None,
            },
    {
        self.frozen.as_ref()
    }

    /// Text of layer 1.
    pub fn layer1(&self) -> (r: &str)
        ensures
            r@ == self.l1(),
    {
        self.layer1.as_str()
    }

    /// Text of layer 2.
    pub fn layer2(&self) -> (r: &str)
        ensures
            r@ == self.l2(),
    {
        self.layer2.as_str()
    }

    /// Text of layer 3.
    pub fn layer3(&self) -> (r: &str)
        ensures
            r@ == self.l3(),
    {
        self.layer3.as_str()
    }

    /// The three layers joined in order.
    pub fn full_system_prompt(&self) -> (r: String)
        ensures
            r@ == self.l1() + self.l2() + self.l3(),
    {
        let r = self.layer1.clone().concat(self.layer2.as_str());
        r.concat(self.layer3.as_str())
    }
}

} // verus!
