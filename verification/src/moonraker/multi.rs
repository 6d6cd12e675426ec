//! Multi-printer support: a list of printers with one active at a time.
use vstd::prelude::*;
use vstd::string::StringExecFns;
use crate::text::{dec, push_dec};

verus! {

/// A named printer configuration for multi-printer support.
#[derive(Debug, Clone)]
pub struct PrinterConfig {
    pub name: String,
    pub host: String,
    pub port: u16,
}

impl Default for PrinterConfig {
    fn default() -> (p: Self)
        ensures
            p.name@ == "default"@,
            p.host@ == "localhost"@,
            p.port == 7125,
    {
        PrinterConfig { name: "default".to_string(), host: "localhost".to_string(), port: 7125 }
    }
}

/// The message for a switch to an index past the end of the list.
pub open spec fn out_of_range_message(index: nat, len: nat) -> Seq<char> {
    "printer index "@ + dec(index) + " out of range (0.."@ + dec(len) + ")"@
}

/// Manages multiple printer configurations with one active printer at a time.
pub struct MultiPrinterManager {
    printers: Vec<PrinterConfig>,
    active_index: usize,
}

impl MultiPrinterManager {
    /// The active index is 0 or points into the list.
    #[verifier::type_invariant]
    spec fn index_valid(&self) -> bool {
        self.active_index == 0 || self.active_index < self.printers@.len()
    }

    /// The configured printers.
    pub closed spec fn printers(&self) -> Seq<PrinterConfig> {
        self.printers@
    }

    /// The index of the active printer.
    pub closed spec fn index(&self) -> nat {
        self.active_index as nat
    }

    /// A manager over `printers`; the first one (index 0) is active.
    pub fn new(printers: Vec<PrinterConfig>) -> (m: Self)
        ensures
            m.printers() == printers@,
            m.index() == 0,
    {
        MultiPrinterManager { printers, active_index: 0 }
    }

    /// The active printer; `None` only when the list is empty.
    pub fn active(&self) -> (r: Option<&PrinterConfig>)
        ensures
            r == if self.printers().len() > 0 {
                Some(&self.printers()[self.index() as int])
            } else {
                None
            },
            self.printers().len() > 0 ==> self.index() < self.printers().len(),
    {
        proof {
            use_type_invariant(self);
        }
        if self.active_index < self.printers.len() {
            Some(&self.printers[self.active_index])
        } else {
            None
        }
    }

    /// Makes printer `index` active; an index past the end is refused and
    /// changes nothing.
    pub fn switch_to(&mut self, index: usize) -> (r: Result<(), String>)
        ensures
            final(self).printers() == old(self).printers(),
            index < old(self).printers().len() ==> r is Ok && final(self).index() == index,
            index >= old(self).printers().len() ==> {
                &&& final(self).index() == old(self).index()
                &&& r matches Err(msg) && msg@ == out_of_range_message(
                    index as nat,
                    old(self).printers().len(),
                )
            },
    {
        let len = self.printers.len();
        if index >= len {
            let mut msg = "printer index ".to_string();
            push_dec(&mut msg, index as u64);
            msg.append(" out of range (0..");
            push_dec(&mut msg, len as u64);
            msg.append(")");
            return Err(msg);
        }
        self.active_index = index;
        Ok(())
    }

    pub fn list_printers(&self) -> (r: &[PrinterConfig])
        ensures
            r@ == self.printers(),
    {
        self.printers.as_slice()
    }

    pub fn active_index(&self) -> (r: usize)
        ensures
            r == self.index(),
    {
        self.active_index
    }
}

} // verus!
