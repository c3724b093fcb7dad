use vstd::prelude::*;

use crate::text::{
    decimal_string, lemma_decimal_injective, lemma_decimal_value, spec_decimal, spec_digits_value,
};

verus! {

/// A greeting service that counts how often it has been called.
pub struct Greeter {
    pub count: u64,
}

/// The text of the greeting for `name` on the call numbered `count`.
pub open spec fn spec_greeting(name: Seq<char>, count: nat) -> Seq<char> {
    "Hello "@ + name + "! I have been called: "@ + spec_decimal(count)
}

impl Greeter {
    /// Greets `name` and reports how many calls, this one included, the greeter has served.
    pub fn say_hello(&mut self, name: &str) -> (res: String)
        requires
            old(self).count < u64::MAX,
        ensures
            final(self).count == old(self).count + 1,
            res@ == spec_greeting(name@, final(self).count as nat),
            res@ == "Hello "@ + name@ + "! I have been called: "@ + spec_decimal(
                final(self).count as nat,
            ),
    {
        self.count = self.count + 1;
        let mut res = String::from_str("Hello ");
        res.append(name);
        res.append("! I have been called: ");
        let number = decimal_string(self.count);
        res.append(number.as_str());
        proof {
            reveal_strlit("Hello ");
            reveal_strlit("! I have been called: ");
        }
        res
    }
}

/// Two calls on one greeter never return the same text: the greetings for one name on
/// calls with different numbers differ.
pub proof fn lemma_greetings_differ(name: Seq<char>, first: nat, second: nat)
    requires
        first != second,
    ensures
        spec_greeting(name, first) != spec_greeting(name, second),
{
    let prefix = "Hello "@ + name + "! I have been called: "@;
    if spec_greeting(name, first) == spec_greeting(name, second) {
        assert(spec_greeting(name, first).skip(prefix.len() as int) =~= spec_decimal(first));
        assert(spec_greeting(name, second).skip(prefix.len() as int) =~= spec_decimal(second));
        lemma_decimal_injective(first, second);
    }
}

/// The greeting names the name verbatim after `"Hello "` and then reports the call number in
/// decimal: the text after the 22-character phrase that follows the name reads back as the
/// count.
pub proof fn lemma_greeting_parts(name: Seq<char>, count: nat)
    ensures
        spec_greeting(name, count).subrange(0, 6) == "Hello "@,
        spec_greeting(name, count).subrange(6, 6 + name.len() as int) == name,
        spec_greeting(name, count).subrange(6 + name.len() as int, 28 + name.len() as int)
            == "! I have been called: "@,
        spec_digits_value(spec_greeting(name, count).skip(28 + name.len() as int)) == count,
{
    reveal_strlit("Hello ");
    reveal_strlit("! I have been called: ");
    let g = spec_greeting(name, count);
    assert(g.subrange(0, 6) =~= "Hello "@);
    assert(g.subrange(6, 6 + name.len() as int) =~= name);
    assert(g.subrange(6 + name.len() as int, 28 + name.len() as int) =~= "! I have been called: "@);
    assert(g.skip(28 + name.len() as int) =~= spec_decimal(count));
    lemma_decimal_value(count);
}

} // verus!
