use container_image::images::generic::GenericImage;
use container_image::{Image, WaitFor};

fn owned(pairs: Vec<(&String, &String)>) -> Vec<(String, String)> {
    pairs.into_iter().map(|(key, value)| (key.clone(), value.clone())).collect()
}

fn pair(key: &str, value: &str) -> (String, String) {
    (key.to_string(), value.to_string())
}

#[test]
fn should_return_env_vars() {
    let image = GenericImage::new("hello")
        .with_env_var("one-key", "one-value")
        .with_env_var("two-key", "two-value");

    let mut env_vars = image.env_vars().into_iter();
    let (first_key, first_value) = env_vars.next().unwrap();
    let (second_key, second_value) = env_vars.next().unwrap();

    assert_eq!(first_key, "one-key");
    assert_eq!(first_value, "one-value");
    assert_eq!(second_key, "two-key");
    assert_eq!(second_value, "two-value");
}

#[test]
fn env_vars_end_after_the_last_pair() {
    let image = GenericImage::new("hello")
        .with_env_var("one-key", "one-value")
        .with_env_var("two-key", "two-value");

    let mut env_vars = image.env_vars().into_iter();
    assert!(env_vars.next().is_some());
    assert!(env_vars.next().is_some());
    assert!(env_vars.next().is_none());
}

#[test]
fn env_vars_can_be_read_again() {
    let image = GenericImage::new("hello").with_env_var("one-key", "one-value");

    let first = owned(image.env_vars());
    let second = owned(image.env_vars());

    assert_eq!(first, vec![pair("one-key", "one-value")]);
    assert_eq!(second, first);
}

#[test]
fn new_keeps_the_descriptor() {
    assert_eq!(GenericImage::new("redis:7").descriptor(), "redis:7");
    assert_eq!(
        GenericImage::new("registry.example/team/app@sha256:0123").descriptor(),
        "registry.example/team/app@sha256:0123"
    );
}

#[test]
fn new_accepts_an_empty_descriptor() {
    let image = GenericImage::new("");

    assert_eq!(image.descriptor(), "");
}

#[test]
fn new_starts_with_nothing_else() {
    let image = GenericImage::new("postgres:16");

    assert_eq!(image.args(), Vec::<String>::new());
    assert!(image.volumes().is_empty());
    assert!(image.env_vars().is_empty());
    assert_eq!(image.ready_conditions(), Vec::<WaitFor>::new());
    assert_eq!(image.entrypoint(), None);
}

#[test]
fn default_has_an_empty_descriptor_and_nothing_else() {
    let image = GenericImage::default();

    assert_eq!(image.descriptor(), "");
    assert_eq!(image.args(), Vec::<String>::new());
    assert!(image.volumes().is_empty());
    assert!(image.env_vars().is_empty());
    assert_eq!(image.ready_conditions(), Vec::<WaitFor>::new());
    assert_eq!(image.entrypoint(), None);
}

#[test]
fn descriptor_is_a_copy() {
    let image = GenericImage::new("redis:7");

    let mut descriptor = image.descriptor();
    descriptor.push_str("-alpine");

    assert_eq!(descriptor, "redis:7-alpine");
    assert_eq!(image.descriptor(), "redis:7");
}

#[test]
fn env_var_written_twice_keeps_the_last_value() {
    let image = GenericImage::new("app")
        .with_env_var("A", "1")
        .with_env_var("B", "x")
        .with_env_var("A", "2")
        .with_env_var("C", "y")
        .with_env_var("A", "3");

    let mut env_vars = owned(image.env_vars());
    env_vars.sort();

    assert_eq!(env_vars, vec![pair("A", "3"), pair("B", "x"), pair("C", "y")]);
}

#[test]
fn env_var_written_twice_keeps_its_place() {
    let image = GenericImage::new("app")
        .with_env_var("A", "1")
        .with_env_var("B", "x")
        .with_env_var("A", "2");

    assert_eq!(owned(image.env_vars()), vec![pair("A", "2"), pair("B", "x")]);
}

#[test]
fn env_var_names_are_told_apart_exactly() {
    let image = GenericImage::new("app")
        .with_env_var("PATH", "/bin")
        .with_env_var("path", "/usr/bin")
        .with_env_var("PATH ", "/sbin")
        .with_env_var("", "empty");

    assert_eq!(
        owned(image.env_vars()),
        vec![
            pair("PATH", "/bin"),
            pair("path", "/usr/bin"),
            pair("PATH ", "/sbin"),
            pair("", "empty"),
        ]
    );
}

#[test]
fn volume_written_twice_keeps_the_last_value() {
    let image = GenericImage::new("app")
        .with_volume("/host", "/data")
        .with_volume("/logs", "/var/log")
        .with_volume("/host", "/srv");

    let mut volumes = owned(image.volumes());
    volumes.sort();

    assert_eq!(volumes, vec![pair("/host", "/srv"), pair("/logs", "/var/log")]);
}

#[test]
fn volume_written_twice_keeps_its_place() {
    let image = GenericImage::new("app")
        .with_volume("/host", "/data")
        .with_volume("/logs", "/var/log")
        .with_volume("/host", "/srv");

    assert_eq!(owned(image.volumes()), vec![pair("/host", "/srv"), pair("/logs", "/var/log")]);
}

#[test]
fn volumes_and_env_vars_do_not_mix() {
    let image = GenericImage::new("app").with_volume("K", "volume").with_env_var("K", "variable");

    assert_eq!(owned(image.volumes()), vec![pair("K", "volume")]);
    assert_eq!(owned(image.env_vars()), vec![pair("K", "variable")]);
}

#[test]
fn wait_conditions_keep_their_order() {
    let image = GenericImage::new("app")
        .with_wait_for(WaitFor::StdOutMessage { message: "ready".to_string() })
        .with_wait_for(WaitFor::Millis { length: 250 })
        .with_wait_for(WaitFor::Healthcheck)
        .with_wait_for(WaitFor::StdErrMessage { message: "listening".to_string() });

    assert_eq!(
        image.ready_conditions(),
        vec![
            WaitFor::StdOutMessage { message: "ready".to_string() },
            WaitFor::Millis { length: 250 },
            WaitFor::Healthcheck,
            WaitFor::StdErrMessage { message: "listening".to_string() },
        ]
    );
}

#[test]
fn equal_wait_conditions_are_all_kept() {
    let image = GenericImage::new("app")
        .with_wait_for(WaitFor::Nothing)
        .with_wait_for(WaitFor::Healthcheck)
        .with_wait_for(WaitFor::Nothing);

    assert_eq!(
        image.ready_conditions(),
        vec![WaitFor::Nothing, WaitFor::Healthcheck, WaitFor::Nothing]
    );
}

#[test]
fn with_args_replaces_the_arguments() {
    let image = GenericImage::new("app")
        .with_args(vec!["a".to_string()])
        .with_args(vec!["b".to_string()]);

    assert_eq!(image.args(), vec!["b".to_string()]);
}

#[test]
fn with_args_keeps_the_order_of_the_arguments() {
    let arguments =
        vec!["--port".to_string(), "6379".to_string(), "--port".to_string(), "".to_string()];

    let image = GenericImage::new("app").with_args(arguments.clone());

    assert_eq!(image.args(), arguments);
}

#[test]
fn with_args_can_empty_the_arguments() {
    let image = GenericImage::new("app").with_args(vec!["a".to_string()]).with_args(Vec::new());

    assert_eq!(image.args(), Vec::<String>::new());
}

#[test]
fn with_args_keeps_everything_else() {
    let image = GenericImage::new("redis:7")
        .with_env_var("A", "1")
        .with_volume("/host", "/data")
        .with_wait_for(WaitFor::Healthcheck)
        .with_entrypoint("/bin/sh")
        .with_args(vec!["old".to_string()]);
    let descriptor = image.descriptor();
    let env_vars = owned(image.env_vars());
    let volumes = owned(image.volumes());
    let conditions = image.ready_conditions();
    let entrypoint = image.entrypoint();

    let image = image.with_args(vec!["new".to_string(), "args".to_string()]);

    assert_eq!(image.args(), vec!["new".to_string(), "args".to_string()]);
    assert_eq!(image.descriptor(), descriptor);
    assert_eq!(owned(image.env_vars()), env_vars);
    assert_eq!(owned(image.volumes()), volumes);
    assert_eq!(image.ready_conditions(), conditions);
    assert_eq!(image.entrypoint(), entrypoint);
}

#[test]
fn entrypoint_is_absent_until_given() {
    let image = GenericImage::new("app").with_env_var("A", "1").with_args(vec!["x".to_string()]);

    assert_eq!(image.entrypoint(), None);
}

#[test]
fn entrypoint_is_the_last_one_given() {
    let image = GenericImage::new("app").with_entrypoint("/bin/sh");
    assert_eq!(image.entrypoint(), Some("/bin/sh".to_string()));

    let image = image.with_env_var("A", "1").with_entrypoint("/bin/bash").with_volume("/a", "/b");
    assert_eq!(image.entrypoint(), Some("/bin/bash".to_string()));
}

#[test]
fn entrypoint_may_be_empty() {
    let image = GenericImage::new("app").with_entrypoint("");

    assert_eq!(image.entrypoint(), Some(String::new()));
}

#[test]
fn builds_the_redis_description() {
    let image = GenericImage::new("redis:7")
        .with_env_var("A", "1")
        .with_env_var("A", "2")
        .with_volume("/host", "/data");

    assert_eq!(image.descriptor(), "redis:7");
    assert_eq!(owned(image.env_vars()), vec![pair("A", "2")]);
    assert_eq!(owned(image.volumes()), vec![pair("/host", "/data")]);
    assert_eq!(image.args(), Vec::<String>::new());
    assert_eq!(image.ready_conditions(), Vec::<WaitFor>::new());
    assert_eq!(image.entrypoint(), None);
}

#[test]
fn descriptions_from_one_start_do_not_share_state() {
    let start = GenericImage::new("x");

    let first = start
        .clone()
        .with_env_var("A", "first")
        .with_volume("/one", "/data")
        .with_wait_for(WaitFor::Healthcheck)
        .with_entrypoint("/first")
        .with_args(vec!["1".to_string()]);
    let second = start.clone().with_env_var("A", "second").with_env_var("B", "only-second");

    assert_eq!(owned(first.env_vars()), vec![pair("A", "first")]);
    assert_eq!(owned(first.volumes()), vec![pair("/one", "/data")]);
    assert_eq!(first.ready_conditions(), vec![WaitFor::Healthcheck]);
    assert_eq!(first.entrypoint(), Some("/first".to_string()));
    assert_eq!(first.args(), vec!["1".to_string()]);

    assert_eq!(owned(second.env_vars()), vec![pair("A", "second"), pair("B", "only-second")]);
    assert!(second.volumes().is_empty());
    assert_eq!(second.ready_conditions(), Vec::<WaitFor>::new());
    assert_eq!(second.entrypoint(), None);
    assert_eq!(second.args(), Vec::<String>::new());

    assert_eq!(start.descriptor(), "x");
    assert!(start.env_vars().is_empty());
    assert!(start.volumes().is_empty());
    assert_eq!(start.ready_conditions(), Vec::<WaitFor>::new());
    assert_eq!(start.entrypoint(), None);
    assert_eq!(start.args(), Vec::<String>::new());
}

#[test]
fn clone_says_the_same() {
    let image = GenericImage::new("redis:7")
        .with_env_var("A", "1")
        .with_env_var("B", "2")
        .with_volume("/host", "/data")
        .with_wait_for(WaitFor::StdOutMessage { message: "ready".to_string() })
        .with_entrypoint("/bin/sh")
        .with_args(vec!["--save".to_string(), "60".to_string()]);

    let copy = image.clone();

    assert_eq!(copy.descriptor(), image.descriptor());
    assert_eq!(owned(copy.env_vars()), owned(image.env_vars()));
    assert_eq!(owned(copy.volumes()), owned(image.volumes()));
    assert_eq!(copy.ready_conditions(), image.ready_conditions());
    assert_eq!(copy.entrypoint(), image.entrypoint());
    assert_eq!(copy.args(), image.args());
}

fn launch_line<I: Image<Args = Vec<String>>>(image: I, extra: &str) -> Vec<String> {
    let mut arguments = image.args();
    arguments.push(extra.to_string());
    let image = image.with_args(arguments);
    let mut line = vec![image.descriptor()];
    line.extend(image.args());
    line
}

#[test]
fn a_driver_can_use_the_image_through_the_trait() {
    let image = GenericImage::new("redis:7").with_args(vec!["--appendonly".to_string()]);

    assert_eq!(
        launch_line(image, "yes"),
        vec!["redis:7".to_string(), "--appendonly".to_string(), "yes".to_string()]
    );
}
