//! Power Platform (Power Automate cloud flows, Power Apps): unpacked solution exports
//! with solution.xml, customizations.xml, Workflows/*.json and CanvasApps/**/*.json.
use super::{normalized_path, normalized_path_exec, name_or, name_or_exec, stem_or_unknown, stem_or_unknown_exec, RpaAnalyzer};
use crate::models::analysis::{step_view, RpaComponent, RpaComponentView, RpaStep};
use crate::models::constants::rpa_tools;
use crate::models::error::AppResult;
use crate::text::{
    chars_of, contains_seq, contains_str, count_matches, count_matches_exec, decimal, ends_with,
    ends_with_str, eq_ignore_ascii_case, eq_ignore_ascii_case_exec, push_str, u64_to_decimal,
};
use vstd::prelude::*;
use vstd::string::StringExecFns;

verus! {

pub struct PowerPlatformAnalyzer;

/// The connectors looked for in a flow definition.
pub open spec fn known_connectors() -> Seq<Seq<char>> {
    seq!["SharePoint"@, "Dataverse"@, "Outlook"@, "Teams"@]
}

/// The known connectors named in the content, in the order of `known_connectors`.
pub open spec fn connectors_in(content: Seq<char>) -> Seq<Seq<char>> {
    known_connectors().filter(|c: Seq<char>| contains_seq(content, c))
}

impl RpaAnalyzer for PowerPlatformAnalyzer {
    open spec fn tool(&self) -> Seq<char> {
        rpa_tools::POWER_PLATFORM@
    }

    open spec fn detects(&self, relative_path: Seq<char>, content: Seq<char>) -> bool {
        let path_str = normalized_path(relative_path);
        let name = name_or(relative_path, Seq::empty());
        if eq_ignore_ascii_case(name, "solution.xml"@) || eq_ignore_ascii_case(name, "customizations.xml"@) {
            true
        } else if (contains_seq(path_str, "Workflows/"@) && ends_with(name, ".json"@))
            || (contains_seq(path_str, "CanvasApps/"@) && ends_with(name, ".json"@)) {
            contains_seq(content, "\"$schema\""@) || contains_seq(content, "\"definition\""@)
        } else {
            false
        }
    }

    open spec fn parsed(&self, relative_path: Seq<char>, content: Seq<char>) -> RpaComponentView {
        RpaComponentView {
            component_path: normalized_path(relative_path),
            tool: rpa_tools::POWER_PLATFORM@,
            flow_name: stem_or_unknown(relative_path),
            flow_kind: if contains_seq(content, "\"triggers\""@) { "automated_or_scheduled"@ } else { "unknown"@ },
            triggers: Seq::empty(),
            steps: seq![("actions"@, "count="@ + decimal(count_matches(content, "\"actions\""@)))],
            branch_or_loop_count: (count_matches(content, "\"Condition\""@) + count_matches(content, "apply_to_each"@)) as u32,
            external_connections: connectors_in(content),
            dependencies: Seq::empty(),
        }
    }

    fn tool_name(&self) -> (res: &'static str) {
        rpa_tools::POWER_PLATFORM
    }

    fn detect(&self, relative_path: &str, content: &str) -> (res: bool) {
        let pc = chars_of(relative_path);
        let path_str = normalized_path_exec(pc.as_slice());
        let ps = chars_of(path_str.as_str());
        let name = name_or_exec(pc.as_slice(), "");
        proof {
            reveal_strlit("");
            assert(""@ =~= Seq::<char>::empty());
        }
        if eq_ignore_ascii_case_exec(name.as_slice(), "solution.xml")
            || eq_ignore_ascii_case_exec(name.as_slice(), "customizations.xml") {
            return true;
        }
        let is_json = ends_with_str(name.as_slice(), ".json");
        let is_workflow_json = contains_str(ps.as_slice(), "Workflows/") && is_json;
        let is_canvas_json = contains_str(ps.as_slice(), "CanvasApps/") && is_json;
        if is_workflow_json || is_canvas_json {
            let cc = chars_of(content);
            return contains_str(cc.as_slice(), "\"$schema\"") || contains_str(cc.as_slice(), "\"definition\"");
        }
        false
    }

    fn parse(&self, relative_path: &str, content: &str) -> (res: AppResult<RpaComponent>) {
        let pc = chars_of(relative_path);
        let cc = chars_of(content);
        let flow_name = stem_or_unknown_exec(pc.as_slice());
        let flow_kind = if contains_str(cc.as_slice(), "\"triggers\"") {
            String::from_str("automated_or_scheduled")
        } else {
            String::from_str("unknown")
        };
        let step_count = count_matches_exec(cc.as_slice(), "\"actions\"");
        let n_cond = count_matches_exec(cc.as_slice(), "\"Condition\"");
        let n_each = count_matches_exec(cc.as_slice(), "apply_to_each");
        let total: u128 = (n_cond as u128) + (n_each as u128);
        let candidates: [&'static str; 4] = ["SharePoint", "Dataverse", "Outlook", "Teams"];
        let ghost kc = known_connectors();
        let mut external_connections: Vec<String> = Vec::new();
        let mut i: usize = 0;
        assert(candidates@.map_values(|s: &str| s@) =~= kc);
        while i < 4
            invariant
                i <= 4,
                kc == known_connectors(),
                cc@ == content@,
                candidates@.map_values(|s: &str| s@) == kc,
                external_connections@.map_values(|s: String| s@) == kc.take(i as int).filter(|c: Seq<char>| contains_seq(content@, c)),
            decreases 4 - i,
        {
            let ghost prev = external_connections@.map_values(|s: String| s@);
            proof {
                reveal_with_fuel(Seq::filter, 1);
                assert(kc.take(i + 1).drop_last() =~= kc.take(i as int));
            }
            assert(candidates@[i as int]@ == kc[i as int]);
            if contains_str(cc.as_slice(), candidates[i]) {
                external_connections.push(String::from_str(candidates[i]));
                assert(external_connections@.map_values(|s: String| s@) =~= prev.push(kc[i as int]));
            }
            i = i + 1;
        }
        assert(kc.take(4) =~= kc);
        let mut kind = String::from_str("count=");
        let count_text = u64_to_decimal(step_count as u64);
        push_str(&mut kind, count_text.as_str());
        let mut steps: Vec<RpaStep> = Vec::new();
        steps.push(RpaStep { name: String::from_str("actions"), kind });
        let c = RpaComponent {
            component_path: normalized_path_exec(pc.as_slice()),
            tool: String::from_str(rpa_tools::POWER_PLATFORM),
            flow_name,
            flow_kind,
            triggers: Vec::new(),
            steps,
            branch_or_loop_count: total as u32,
            external_connections,
            dependencies: Vec::new(),
        };
        assert(c.triggers@.map_values(|s: String| s@) =~= Seq::<Seq<char>>::empty());
        assert(c.dependencies@.map_values(|s: String| s@) =~= Seq::<Seq<char>>::empty());
        assert(c.steps@.map_values(|s: RpaStep| step_view(s)) =~= seq![("actions"@, "count="@ + decimal(count_matches(content@, "\"actions\""@)))]);
        Ok(c)
    }
}

} // verus!
