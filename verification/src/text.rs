use vstd::prelude::*;
use vstd::string::StringExecFns;

verus! {

/// The welcome line for `name`.
pub fn greet(name: String) -> (r: String)
    ensures
        r@ == "Hi "@ + name@ + ", welcome to fedit!"@,
{
    let mut r = String::from_str("Hi ");
    r.append(name.as_str());
    r.append(", welcome to fedit!");
    r
}

/// Says back what it was given.
pub fn echo(msg: String) -> (r: String)
    ensures
        r@ == "you said: "@ + msg@,
{
    let mut r = String::from_str("you said: ");
    r.append(msg.as_str());
    r
}

/// The event sent to the window when the menu item with this id is chosen.
pub fn menu_event_name(id: &str) -> (r: String)
    ensures
        r@ == "fedit:menu-"@ + id@,
{
    let mut r = String::from_str("fedit:menu-");
    r.append(id);
    r
}

} // verus!
