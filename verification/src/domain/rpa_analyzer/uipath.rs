//! UiPath: project definition project.json and workflow files *.xaml.
use super::{normalized_path, normalized_path_exec, name_or, name_or_exec, stem_or_unknown, stem_or_unknown_exec, RpaAnalyzer};
use crate::models::analysis::{step_view, RpaComponent, RpaComponentView, RpaStep};
use crate::models::constants::rpa_tools;
use crate::models::error::AppResult;
use crate::text::{chars_of, contains_seq, contains_str, ends_with, ends_with_str, eq_ignore_ascii_case, eq_ignore_ascii_case_exec};
use vstd::prelude::*;
use vstd::string::StringExecFns;

verus! {

pub struct UiPathAnalyzer;

/// Note put in the dependencies of a workflow that invokes other workflow files.
pub const INVOKE_NOTE: &'static str = "InvokeWorkflowFile参照あり（詳細抽出は実サンプル検証後に対応）";

/// The activities looked for in a workflow.
pub open spec fn known_activities() -> Seq<Seq<char>> {
    seq!["If"@, "While"@, "ForEach"@, "TryCatch"@, "InvokeWorkflowFile"@]
}

/// The activity occurs as an element, with or without the `ui:` prefix.
pub open spec fn has_activity(content: Seq<char>, a: Seq<char>) -> bool {
    contains_seq(content, "<ui:"@ + a) || contains_seq(content, "<"@ + a)
}

pub open spec fn activities_in(content: Seq<char>) -> Seq<Seq<char>> {
    known_activities().filter(|a: Seq<char>| has_activity(content, a))
}

/// The activity is a branch or a loop.
pub open spec fn is_branch_or_loop(a: Seq<char>) -> bool {
    a == "If"@ || a == "While"@ || a == "ForEach"@
}

pub open spec fn is_project_file(relative_path: Seq<char>) -> bool {
    eq_ignore_ascii_case(name_or(relative_path, "unknown"@), "project.json"@)
}

impl RpaAnalyzer for UiPathAnalyzer {
    open spec fn tool(&self) -> Seq<char> {
        rpa_tools::UIPATH@
    }

    open spec fn detects(&self, relative_path: Seq<char>, content: Seq<char>) -> bool {
        let name = name_or(relative_path, Seq::empty());
        if eq_ignore_ascii_case(name, "project.json"@) {
            contains_seq(content, "\"studioVersion\""@)
                || (contains_seq(content, "\"dependencies\""@) && contains_seq(content, "\"projectId\""@))
        } else if ends_with(name, ".xaml"@) {
            contains_seq(content, "UiPath.Core"@) || contains_seq(content, "System.Activities"@)
        } else {
            false
        }
    }

    open spec fn parsed(&self, relative_path: Seq<char>, content: Seq<char>) -> RpaComponentView {
        if is_project_file(relative_path) {
            RpaComponentView {
                component_path: normalized_path(relative_path),
                tool: rpa_tools::UIPATH@,
                flow_name: "project.json"@,
                flow_kind: "project"@,
                triggers: Seq::empty(),
                steps: Seq::empty(),
                branch_or_loop_count: 0,
                external_connections: Seq::empty(),
                dependencies: Seq::empty(),
            }
        } else {
            let acts = activities_in(content);
            RpaComponentView {
                component_path: normalized_path(relative_path),
                tool: rpa_tools::UIPATH@,
                flow_name: stem_or_unknown(relative_path),
                flow_kind: "workflow"@,
                triggers: Seq::empty(),
                steps: acts.map_values(|a: Seq<char>| (a, "activity"@)),
                branch_or_loop_count: acts.filter(|a: Seq<char>| is_branch_or_loop(a)).len() as u32,
                external_connections: Seq::empty(),
                dependencies: if contains_seq(content, "InvokeWorkflowFile"@) { seq![INVOKE_NOTE@] } else { Seq::empty() },
            }
        }
    }

    fn tool_name(&self) -> (res: &'static str) {
        rpa_tools::UIPATH
    }

    fn detect(&self, relative_path: &str, content: &str) -> (res: bool) {
        let pc = chars_of(relative_path);
        let cc = chars_of(content);
        let name = name_or_exec(pc.as_slice(), "");
        proof {
            reveal_strlit("");
            assert(""@ =~= Seq::<char>::empty());
        }
        if eq_ignore_ascii_case_exec(name.as_slice(), "project.json") {
            return contains_str(cc.as_slice(), "\"studioVersion\"")
                || contains_str(cc.as_slice(), "\"dependencies\"") && contains_str(cc.as_slice(), "\"projectId\"");
        }
        if ends_with_str(name.as_slice(), ".xaml") {
            return contains_str(cc.as_slice(), "UiPath.Core") || contains_str(cc.as_slice(), "System.Activities");
        }
        false
    }

    fn parse(&self, relative_path: &str, content: &str) -> (res: AppResult<RpaComponent>) {
        let pc = chars_of(relative_path);
        let cc = chars_of(content);
        let name = name_or_exec(pc.as_slice(), "unknown");
        if eq_ignore_ascii_case_exec(name.as_slice(), "project.json") {
            let c = RpaComponent {
                component_path: normalized_path_exec(pc.as_slice()),
                tool: String::from_str(rpa_tools::UIPATH),
                flow_name: String::from_str("project.json"),
                flow_kind: String::from_str("project"),
                triggers: Vec::new(),
                steps: Vec::new(),
                branch_or_loop_count: 0,
                external_connections: Vec::new(),
                dependencies: Vec::new(),
            };
            assert(c.triggers@.map_values(|s: String| s@) =~= Seq::<Seq<char>>::empty());
            assert(c.external_connections@.map_values(|s: String| s@) =~= Seq::<Seq<char>>::empty());
            assert(c.dependencies@.map_values(|s: String| s@) =~= Seq::<Seq<char>>::empty());
            assert(c.steps@.map_values(|s: RpaStep| step_view(s)) =~= Seq::<(Seq<char>, Seq<char>)>::empty());
            return Ok(c);
        }
        let flow_name = stem_or_unknown_exec(pc.as_slice());
        let candidates: [&'static str; 5] = ["If", "While", "ForEach", "TryCatch", "InvokeWorkflowFile"];
        let ghost ka = known_activities();
        assert(candidates@.map_values(|s: &str| s@) =~= ka);
        let mut steps: Vec<RpaStep> = Vec::new();
        let mut branch: u32 = 0;
        let mut i: usize = 0;
        while i < 5
            invariant
                i <= 5,
                ka == known_activities(),
                cc@ == content@,
                candidates@.map_values(|s: &str| s@) == ka,
                steps@.map_values(|s: RpaStep| step_view(s)) ==
                    ka.take(i as int).filter(|a: Seq<char>| has_activity(content@, a)).map_values(|a: Seq<char>| (a, "activity"@)),
                branch == ka.take(i as int).filter(|a: Seq<char>| has_activity(content@, a)).filter(|a: Seq<char>| is_branch_or_loop(a)).len(),
                branch <= i,
            decreases 5 - i,
        {
            let ghost prev = steps@.map_values(|s: RpaStep| step_view(s));
            let ghost fprev = ka.take(i as int).filter(|a: Seq<char>| has_activity(content@, a));
            proof {
                reveal_with_fuel(Seq::filter, 1);
                assert(ka.take(i + 1).drop_last() =~= ka.take(i as int));
            }
            let a = candidates[i];
            assert(a@ == ka[i as int]);
            let mut ui = String::from_str("<ui:");
            crate::text::push_str(&mut ui, a);
            let mut plain = String::from_str("<");
            crate::text::push_str(&mut plain, a);
            let found = contains_str(cc.as_slice(), ui.as_str()) || contains_str(cc.as_slice(), plain.as_str());
            if found {
                steps.push(RpaStep { name: String::from_str(a), kind: String::from_str("activity") });
                assert(ka.take(i + 1).filter(|a: Seq<char>| has_activity(content@, a)) =~= fprev.push(a@));
                assert(steps@.map_values(|s: RpaStep| step_view(s)) =~= prev.push((a@, "activity"@)));
                assert(fprev.push(a@).map_values(|a: Seq<char>| (a, "activity"@)) =~= fprev.map_values(|a: Seq<char>| (a, "activity"@)).push((a@, "activity"@)));
                assert(fprev.push(a@).drop_last() =~= fprev);
                if i < 3 {
                    branch = branch + 1;
                    assert(is_branch_or_loop(a@)) by {
                        reveal_strlit("If");
                        reveal_strlit("While");
                        reveal_strlit("ForEach");
                    }
                } else {
                    assert(!is_branch_or_loop(a@)) by {
                        reveal_strlit("If");
                        reveal_strlit("While");
                        reveal_strlit("ForEach");
                        reveal_strlit("TryCatch");
                        reveal_strlit("InvokeWorkflowFile");
                        assert(a@.len() != 2 || a@[0] != 'I' || a@[1] != 'f');
                    }
                }
            } else {
                assert(ka.take(i + 1).filter(|a: Seq<char>| has_activity(content@, a)) =~= fprev);
            }
            i = i + 1;
        }
        assert(ka.take(5) =~= ka);
        let mut dependencies: Vec<String> = Vec::new();
        if contains_str(cc.as_slice(), "InvokeWorkflowFile") {
            dependencies.push(String::from_str(INVOKE_NOTE));
        }
        let c = RpaComponent {
            component_path: normalized_path_exec(pc.as_slice()),
            tool: String::from_str(rpa_tools::UIPATH),
            flow_name,
            flow_kind: String::from_str("workflow"),
            triggers: Vec::new(),
            steps,
            branch_or_loop_count: branch,
            external_connections: Vec::new(),
            dependencies,
        };
        assert(c.triggers@.map_values(|s: String| s@) =~= Seq::<Seq<char>>::empty());
        assert(c.external_connections@.map_values(|s: String| s@) =~= Seq::<Seq<char>>::empty());
        assert(c.dependencies@.map_values(|s: String| s@) =~= if contains_seq(content@, "InvokeWorkflowFile"@) { seq![INVOKE_NOTE@] } else { Seq::<Seq<char>>::empty() });
        Ok(c)
    }
}

} // verus!
