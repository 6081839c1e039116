use hmm_app::tasks::{
    observe_task_progress, task_id_prefix_str, NoopTaskProgressObserver, TaskKind,
    TaskManager, TaskManagerError, TaskProgressEvent, TaskStatus,
};

#[test]
fn tasks_follow_their_lifecycle() {
    let mut manager = TaskManager::new();
    let task = manager.create_task(TaskKind::ModImport).unwrap();
    assert!(task.task_id.starts_with(task_id_prefix_str(TaskKind::ModImport)));
    assert_eq!(manager.task_status(&task.task_id), Some(TaskStatus::Queued));
    assert_eq!(manager.has_active_task_of_kind(TaskKind::ModImport), Ok(true));
    assert_eq!(
        manager.has_active_task_of_kind(TaskKind::ModStorageMigration),
        Ok(false)
    );

    let running = manager.start_task(&task.task_id).unwrap();
    assert_eq!(running.status, TaskStatus::Running);
    let completed = manager.complete_task(&task.task_id).unwrap();
    assert_eq!(completed.status, TaskStatus::Completed);
    assert_eq!(manager.has_active_task_of_kind(TaskKind::ModImport), Ok(false));

    assert_eq!(
        manager.cancel_task(&task.task_id),
        Err(TaskManagerError::TaskCannotTransition {
            task_id: task.task_id.clone(),
            from: TaskStatus::Completed,
            to: TaskStatus::Cancelled,
        })
    );
    assert_eq!(
        manager.start_task("mod-import-unknown"),
        Err(TaskManagerError::TaskNotFound("mod-import-unknown".to_owned()))
    );
}

#[test]
fn a_queued_task_can_be_cancelled_and_only_a_running_one_completed() {
    let mut manager = TaskManager::new();
    let first = manager.create_task(TaskKind::ModStorageMigration).unwrap();
    assert!(first.task_id.starts_with("mod-storage-migration-"));
    assert_eq!(
        manager.cancel_task(&first.task_id).unwrap().status,
        TaskStatus::Cancelled
    );
    let second = manager.create_task(TaskKind::ModImport).unwrap();
    assert_ne!(first.task_id, second.task_id);
    assert_eq!(
        manager.complete_task(&second.task_id),
        Err(TaskManagerError::TaskCannotTransition {
            task_id: second.task_id.clone(),
            from: TaskStatus::Queued,
            to: TaskStatus::Completed,
        })
    );
    manager.start_task(&second.task_id).unwrap();
    assert_eq!(
        manager.fail_task(&second.task_id).unwrap().status,
        TaskStatus::Failed
    );
}

#[test]
fn observed_events_are_recorded_in_order() {
    let mut events = vec![];
    let first = TaskProgressEvent::new(
        "mod-import-1".to_owned(),
        TaskKind::ModImport,
        TaskStatus::Running,
        "prepare",
    );
    assert!(first.current.is_none() && first.error.is_none());
    observe_task_progress(&mut events, &NoopTaskProgressObserver, first.clone());
    let second = TaskProgressEvent::new(
        "mod-import-1".to_owned(),
        TaskKind::ModImport,
        TaskStatus::Completed,
        "done",
    );
    observe_task_progress(&mut events, &NoopTaskProgressObserver, second.clone());
    assert_eq!(events, vec![first, second]);
}
