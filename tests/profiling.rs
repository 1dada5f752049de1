use fluxel_node_resolver::csproj::{
    configurations_from_content, extract_configuration_from_condition, extract_default_target_framework,
    extract_target_framework,
};
use fluxel_node_resolver::profiler::FluxelProfiler;
use fluxel_node_resolver::profiling::{CompletedSpan, RingBuffer, SpanCategory};
use fluxel_node_resolver::project::{
    build_system_hint, dotnet_info, package_manager_from_lockfiles, project_profile, NodeInfo,
    PackageManager, ProjectKind,
};
use fluxel_node_resolver::sessions::SessionManager;
use fluxel_node_resolver::state::{LaunchState, ProcessManager};

fn span(id: u64, name: &str, start: u64) -> CompletedSpan {
    CompletedSpan {
        id,
        parent_id: None,
        name: name.to_string(),
        target: "test".to_string(),
        category: SpanCategory::Other,
        start_time: start,
        end_time: start,
        duration_ns: 1000,
        fields: vec![],
    }
}

#[test]
fn test_extract_configuration_from_condition() {
    let line = "  <PropertyGroup Condition=\"'$(Configuration)|$(Platform)'=='Debug|AnyCPU'\">";
    assert_eq!(extract_configuration_from_condition(line), Some("Debug".to_string()));

    let line = "  <PropertyGroup Condition=\" '$(Configuration)' == 'Release' \">";
    assert_eq!(extract_configuration_from_condition(line), Some("Release".to_string()));
}

#[test]
fn test_extract_target_framework() {
    let line = "    <TargetFramework>net6.0</TargetFramework>";
    assert_eq!(extract_target_framework(line), Some("net6.0".to_string()));
}

#[test]
fn configuration_edge_cases() {
    assert_eq!(extract_configuration_from_condition("<PropertyGroup>"), None);
    assert_eq!(
        extract_configuration_from_condition("Condition=\"$(Configuration) == \"Staging\"\""),
        Some("Staging".to_string())
    );
    assert_eq!(extract_target_framework("</TargetFramework><TargetFramework>"), None);
    assert_eq!(extract_target_framework("<TargetFramework> net8.0 </TargetFramework>"), Some("net8.0".to_string()));
}

#[test]
fn test_category_inference() {
    assert_eq!(SpanCategory::from_span("git_status", "git_manager", &[]), SpanCategory::GitOperation);
    assert_eq!(SpanCategory::from_span("send_message", "lsp", &[]), SpanCategory::LspRequest);
    assert_eq!(
        SpanCategory::from_span("anything", "test", &[("category".to_string(), "search".to_string())]),
        SpanCategory::Search
    );
}

#[test]
fn category_fallbacks() {
    assert_eq!(SpanCategory::from_span("Read_File", "x", &[]), SpanCategory::FileIo);
    assert_eq!(SpanCategory::from_span("CommandRun", "x", &[]), SpanCategory::TauriCommand);
    assert_eq!(SpanCategory::from_span("render", "frontend", &[]), SpanCategory::Other);
    assert_eq!(SpanCategory::from_span("render", "backend", &[]), SpanCategory::BackendOperation);
    assert_eq!(
        SpanCategory::from_span("git", "x", &[("category".to_string(), "nope".to_string())]),
        SpanCategory::Other
    );
}

#[test]
fn ring_buffer_keeps_most_recent() {
    let mut buffer = RingBuffer::new(3);
    assert!(buffer.is_empty());
    for i in 0..5 {
        buffer.push(span(i, &format!("span_{}", i), 100 + i));
    }
    assert_eq!(buffer.len(), 3);
    assert_eq!(buffer.capacity(), 3);
    assert_eq!(buffer.reference_time(), Some(100));
    assert!(buffer.find(1).is_none());
    assert_eq!(buffer.find(4).map(|s| s.name.clone()), Some("span_4".to_string()));
    assert_eq!(buffer.find(2).map(|s| s.name.clone()), Some("span_2".to_string()));
    buffer.clear();
    assert_eq!(buffer.len(), 0);
    assert_eq!(buffer.reference_time(), None);
}

#[test]
fn session_ids_count_up() {
    let mut manager = SessionManager::new();
    assert_eq!(manager.active_session_id(), None);
    let a = manager.start_session("first".to_string(), 0, 10);
    let b = manager.start_session("second".to_string(), 0, 20);
    assert_eq!(a, "session_1");
    assert_eq!(b, "session_2");
    assert!(manager.is_active(&a));
    assert_eq!(manager.active_session_id(), Some("session_1"));
    let removed = manager.remove_session(&a).unwrap();
    assert_eq!(removed.name, "first");
    assert_eq!(removed.start_instant, 10);
    assert!(!manager.is_active(&a));
    assert!(manager.remove_session(&a).is_none());
    assert_eq!(manager.active_session_id(), Some("session_2"));
}

#[test]
fn launch_path_is_taken_once() {
    let mut state = LaunchState::new();
    assert_eq!(state.take_path(), None);
    state.path = Some("/w".to_string());
    assert_eq!(state.take_path(), Some("/w".to_string()));
    assert_eq!(state.take_path(), None);
}

#[test]
fn process_tracking() {
    let mut pm = ProcessManager::new();
    pm.register(7);
    pm.register(7);
    pm.register(9);
    assert_eq!(pm.pid_list(), vec![7, 9]);
    pm.unregister(7);
    assert!(!pm.is_tracked(7));
    assert!(pm.is_tracked(9));
}

#[test]
fn project_detection() {
    assert_eq!(package_manager_from_lockfiles(false, true, true, false, false), Some(PackageManager::Bun));
    assert_eq!(package_manager_from_lockfiles(false, false, false, true, true), Some(PackageManager::Yarn));
    assert_eq!(package_manager_from_lockfiles(false, false, false, false, false), None);
    let node = NodeInfo { has_package_json: true, has_tsconfig: false, has_jsconfig: false, package_manager: None };
    assert_eq!(build_system_hint(&ProjectKind::Javascript, &node), Some("bun".to_string()));
    let dotnet = dotnet_info(Some("C:\\w\\a.sln".to_string()), None);
    assert_eq!(dotnet.solution_path, Some("C:/w/a.sln".to_string()));
    let p = project_profile("C:\\w", dotnet, node);
    assert_eq!(p.kind, ProjectKind::Mixed);
    assert_eq!(p.root_path, "C:/w");
    assert_eq!(p.build_system_hint, Some("auto".to_string()));
}

#[test]
fn project_file_configurations() {
    let content = "<Project>\n  <PropertyGroup>\n    <TargetFramework>net8.0</TargetFramework>\n  </PropertyGroup>\n</Project>\n";
    assert_eq!(extract_default_target_framework(content), Some("net8.0".to_string()));
    let configs = configurations_from_content(content);
    assert_eq!(configs.len(), 2);
    assert_eq!(configs[0].name, "Debug");
    assert_eq!(configs[1].name, "Release");
    assert_eq!(configs[1].target_framework, Some("net8.0".to_string()));

    let content = "<PropertyGroup Condition=\"'$(Configuration)|$(Platform)'=='Release|AnyCPU'\">\n<TargetFramework>net7.0</TargetFramework>\n</PropertyGroup>\n<PropertyGroup Condition=\" '$(Configuration)' == 'Debug' \">\n</PropertyGroup>\n";
    let configs = configurations_from_content(content);
    assert_eq!(configs.len(), 2);
    assert_eq!(configs[0].name, "Debug");
    assert_eq!(configs[0].target_framework, None);
    assert_eq!(configs[1].name, "Release");
    assert_eq!(configs[1].target_framework, Some("net7.0".to_string()));
}

#[test]
fn span_tree_is_breadth_first() {
    let mut buffer = RingBuffer::new(10);
    let child = |id: u64, parent: Option<u64>| {
        let mut s = span(id, &format!("s{}", id), id);
        s.parent_id = parent;
        s
    };
    let spans = vec![child(3, Some(2)), child(1, None), child(2, Some(1)), child(4, Some(1)), child(5, Some(9))];
    for s in spans {
        buffer.push(s);
    }
    let ids: Vec<u64> = buffer.find_tree(1).iter().map(|s| s.id).collect();
    assert_eq!(ids, vec![1, 2, 4, 3]);
    let ids: Vec<u64> = buffer.find_tree(9).iter().map(|s| s.id).collect();
    assert_eq!(ids, vec![5]);
    assert!(buffer.find_tree(42).is_empty());
}

#[test]
fn profiler_records_closed_spans() {
    let mut p = FluxelProfiler::new(2);
    assert!(p.is_enabled());
    assert_eq!(p.capacity(), 2);
    assert_eq!(p.map_id(100), 1);
    assert_eq!(p.map_id(100), 1);
    assert_eq!(p.get_id(200), None);
    p.on_new_span(200, "read_file".to_string(), "app".to_string(), vec![], 1_000);
    assert_eq!(p.get_id(200), Some(2));
    p.on_record(200, vec![("path".to_string(), "/a".to_string())]);
    p.on_close(200, Some(100), 4_000);
    assert_eq!(p.span_count(), 1);
    assert_eq!(p.get_id(200), None);
    let span = p.buffer().find(2).unwrap();
    assert_eq!(span.parent_id, Some(1));
    assert_eq!(span.duration_ns, 3_000);
    assert_eq!(span.category, SpanCategory::FileIo);
    assert_eq!(span.fields, vec![("path".to_string(), "/a".to_string())]);
    p.set_enabled(false);
    p.on_new_span(300, "x".to_string(), "y".to_string(), vec![], 5_000);
    assert_eq!(p.get_id(300), None);
    p.clear();
    assert_eq!(p.span_count(), 0);
}

#[test]
fn test_ring_buffer_capacity() {
    let mut buffer = RingBuffer::new(3);
    let now: u64 = 0;

    for i in 0..5 {
        buffer.push(CompletedSpan {
            id: i,
            parent_id: None,
            name: format!("span_{}", i),
            target: "test".to_string(),
            category: SpanCategory::Other,
            start_time: now,
            end_time: now,
            duration_ns: 1000,
            fields: vec![],
        });
    }

    // Should only contain last 3
    assert_eq!(buffer.len(), 3);

    let recent = buffer.recent(10);
    assert_eq!(recent.len(), 3);
    assert_eq!(recent[0].name, "span_4");
    assert_eq!(recent[1].name, "span_3");
    assert_eq!(recent[2].name, "span_2");
}
