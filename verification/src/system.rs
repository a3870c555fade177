//! The control-constants compatibility script: map scripts refer to `CON_`
//! constants that a player-controls definition names, so loading the system
//! group generates a script defining each of them as zero.

use vstd::prelude::*;
use vstd::string::*;

verus! {

/// The control identifiers a player-controls definition names, in order.
pub uninterp spec fn identifiers_of(data: Seq<u8>) -> Seq<Seq<char>>;

/// Relies on regex::bytes::Regex::captures_iter with the fixed pattern
/// `(?m)^\s*Identifier=(\w+)`: the captured identifiers, in order of
/// appearance, a function of the bytes alone.
#[verifier::external_body]
fn find_identifiers(data: &Vec<u8>) -> (r: Vec<String>)
    ensures
        r@.map_values(|s: String| s@) == identifiers_of(data@),
{
    let re = regex::bytes::Regex::new(r"(?m)^\s*Identifier=(\w+)").unwrap();
    let mut out = Vec::new();
    for cap in re.captures_iter(data.as_slice()) {
        out.push(String::from_utf8_lossy(&cap[1]).into_owned());
    }
    out
}

/// The script defining a zero `CON_` constant for each identifier.
pub open spec fn compat_script(names: Seq<Seq<char>>) -> Seq<char>
    decreases names.len(),
{
    if names.len() == 0 {
        Seq::empty()
    } else {
        "static const CON_"@ + names[0] + " = 0;\n"@ + compat_script(names.drop_first())
    }
}

/// Builds the compatibility script for a player-controls definition.
#[verifier::loop_isolation(false)]
pub fn player_controls_compat_script(data: &Vec<u8>) -> (r: String)
    ensures
        r@ == compat_script(identifiers_of(data@)),
{
    let names = find_identifiers(data);
    let ghost views = names@.map_values(|s: String| s@);
    let mut script = String::new();
    let mut i: usize = 0;
    proof {
        assert(views.skip(0) =~= views);
        assert(script@ + compat_script(views) =~= compat_script(views));
    }
    while i < names.len()
        invariant
            i <= names@.len(),
            compat_script(views) == script@ + compat_script(views.skip(i as int)),
        decreases names@.len() - i,
    {
        let ghost before = script@;
        proof {
            assert(views.skip(i as int)[0] == views[i as int]);
            assert(views[i as int] == names@[i as int]@);
        }
        script.append("static const CON_");
        script.append(names[i].as_str());
        script.append(" = 0;\n");
        proof {
            assert(views.skip(i as int).drop_first() =~= views.skip(i + 1));
            assert(script@ + compat_script(views.skip(i + 1)) =~= before + compat_script(
                views.skip(i as int),
            ));
        }
        i = i + 1;
    }
    proof {
        assert(views.skip(i as int) =~= Seq::<Seq<char>>::empty());
        assert(script@ + compat_script(views.skip(i as int)) =~= script@);
    }
    script
}

} // verus!
