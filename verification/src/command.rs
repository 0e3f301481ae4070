//! Command lines built from the per-app templates: the hypervisor boot
//! command and the display-client command, with their recognized placeholders
//! substituted.

use vstd::prelude::*;
use vstd::string::{StrSliceExecFns, StringExecFns};
use crate::policy::{BootAction, BootDecision, BootTag};
use crate::template::{
    detect_and_replace_win_escape, replace_all, spec_detect_replace, spec_replace_all,
    spec_split_ws, split_whitespace_args,
};
use crate::text::{spec_decimal, u16_to_string};

verus! {

/// The hypervisor command line for a boot: the port and image placeholders
/// substituted, then `-loadvm <tag>` appended when the decision loads a
/// snapshot.
pub open spec fn spec_qemu_command(
    template: Seq<char>,
    port: int,
    image: Seq<char>,
    boot: BootDecision,
) -> Seq<char> {
    let base = spec_replace_all(
        spec_replace_all(template, "$RDP_PORT"@, spec_decimal(port)),
        "$IMAGE_FILE_PATH"@,
        image,
    );
    match boot.action {
        BootAction::ColdBoot => base,
        BootAction::LoadTag(BootTag::Init) => base + " -loadvm appack-init"@,
        BootAction::LoadTag(BootTag::OnClose) => base + " -loadvm appack-onclose"@,
    }
}

/// Build the hypervisor command line from the app's template, the chosen
/// display port, the absolute image path and the boot decision.
pub fn build_qemu_command(
    template: &str,
    rdp_port: u16,
    image_path: &str,
    boot: &BootDecision,
) -> (r: String)
    ensures
        r@ == spec_qemu_command(template@, rdp_port as int, image_path@, *boot),
{
    proof {
        reveal_strlit("$RDP_PORT");
        reveal_strlit("$IMAGE_FILE_PATH");
    }
    let port_str = u16_to_string(rdp_port);
    let s1 = replace_all(template, "$RDP_PORT", port_str.as_str());
    let s2 = replace_all(s1.as_str(), "$IMAGE_FILE_PATH", image_path);
    match boot.action {
        BootAction::ColdBoot => s2,
        BootAction::LoadTag(BootTag::Init) => s2.concat(" -loadvm appack-init"),
        BootAction::LoadTag(BootTag::OnClose) => s2.concat(" -loadvm appack-onclose"),
    }
}

/// One command-line word with the whitespace escape undone.
pub open spec fn spec_unescape_ws(w: Seq<char>) -> Seq<char> {
    spec_replace_all(w, "$WHITESPACE"@, " "@)
}

/// A borrowed optional string, seen as its characters.
pub open spec fn spec_opt_str_view(o: Option<&str>) -> Option<Seq<char>> {
    match o {
        Some(a) => Some(a@),
        None => None,
    }
}

/// The display-client argument words: extra arguments appended to the
/// template, the port and home placeholders substituted, the home-share spans
/// rewritten, the line split on whitespace, and the whitespace escape undone
/// in each word.
pub open spec fn spec_freerdp_args(
    base: Seq<char>,
    rdp_args: Option<Seq<char>>,
    port: int,
    home: Seq<char>,
) -> Seq<Seq<char>> {
    let full = match rdp_args {
        Some(a) => base + " "@ + a,
        None => base,
    };
    let s1 = spec_replace_all(full, "$RDP_PORT"@, spec_decimal(port));
    let s2 = spec_replace_all(s1, "$HOME"@, home);
    let s3 = spec_detect_replace(s2);
    spec_split_ws(s3).map_values(|w: Seq<char>| spec_unescape_ws(w))
}

/// Build the display-client argument words from the app's template, optional
/// extra arguments, the assigned port and the user's home directory.
pub fn build_freerdp_args(
    base: &str,
    rdp_args: Option<&str>,
    rdp_port: u16,
    home: &str,
) -> (args: Vec<String>)
    ensures
        args.deep_view() == spec_freerdp_args(
            base@,
            spec_opt_str_view(rdp_args),
            rdp_port as int,
            home@,
        ),
{
    proof {
        reveal_strlit("$RDP_PORT");
        reveal_strlit("$HOME");
    }
    let full: String = match rdp_args {
        Some(a) => {
            let r = String::from_str(base).concat(" ").concat(a);
            proof {
                assert(r@ =~= base@ + " "@ + a@);
            }
            r
        },
        None => String::from_str(base),
    };
    let port_str = u16_to_string(rdp_port);
    let s1 = replace_all(full.as_str(), "$RDP_PORT", port_str.as_str());
    let s2 = replace_all(s1.as_str(), "$HOME", home);
    let s3 = detect_and_replace_win_escape(s2.as_str());
    let words = split_whitespace_args(s3.as_str());
    let ghost target = words.deep_view().map_values(|w: Seq<char>| spec_unescape_ws(w));
    let mut args: Vec<String> = Vec::new();
    let n = words.len();
    let mut i: usize = 0;
    proof {
        assert(args.deep_view() =~= target.take(0));
    }
    while i < n
        invariant
            n == words@.len(),
            i <= n,
            target == words.deep_view().map_values(|w: Seq<char>| spec_unescape_ws(w)),
            args.deep_view() == target.take(i as int),
        decreases n - i,
    {
        proof {
            reveal_strlit("$WHITESPACE");
        }
        let unescaped = replace_all(words[i].as_str(), "$WHITESPACE", " ");
        let ghost dv0 = args.deep_view();
        let ghost av0 = args@;
        args.push(unescaped);
        proof {
            assert(words.deep_view()[i as int] == words@[i as int]@);
            assert(target[i as int] == spec_unescape_ws(words.deep_view()[i as int]));
            assert(target.take(i as int).len() == i as int);
            assert(args@.len() == i + 1);
            assert(args.deep_view()[i as int] == unescaped@);
            assert forall|k: int| 0 <= k < i implies args.deep_view()[k] == #[trigger] target[k] by {
                assert(args@[k] == av0[k]);
                assert(args.deep_view()[k] == dv0[k]);
                assert(dv0[k] == target.take(i as int)[k]);
            }
            assert(args.deep_view() =~= target.take(i as int + 1));
        }
        i += 1;
    }
    proof {
        assert(target.take(n as int) =~= target);
    }
    args
}

} // verus!
