use sidecar_engine::batch::split_batch_outputs;
use sidecar_engine::codec::{encode_floats_base64, DecodeFault};
use sidecar_engine::protocol::{
    check_reply, command_line, engine_info, inference_result, locate_script, read_reply, Command,
    PyTorchInfo, SidecarError,
};

fn b64(xs: &[f32]) -> String {
    encode_floats_base64(&xs.iter().map(|x| x.to_bits()).collect())
}

#[test]
fn init_command_line() {
    let cmd = Command::Init { model_path: "/models/kata \"b18\".onnx".to_string() };
    let line = command_line(&cmd);
    assert_eq!(line, "{\"cmd\":\"init\",\"model_path\":\"/models/kata \\\"b18\\\".onnx\"}\n");
    let v: serde_json::Value = serde_json::from_str(&line).unwrap();
    assert_eq!(v["model_path"], "/models/kata \"b18\".onnx");
}

#[test]
fn infer_command_line() {
    let cmd = Command::Infer {
        bin_input: vec![1.0f32.to_bits()],
        global_input: vec![],
        batch_size: 12,
    };
    assert_eq!(
        command_line(&cmd),
        "{\"cmd\":\"infer\",\"bin_input\":\"AACAPw==\",\"global_input\":\"\",\"batch_size\":12}\n"
    );
}

#[test]
fn benchmark_and_dispose_command_lines() {
    assert_eq!(
        command_line(&Command::Benchmark { iterations: 30 }),
        "{\"cmd\":\"benchmark\",\"iterations\":30}\n"
    );
    assert_eq!(
        command_line(&Command::Benchmark { iterations: 0 }),
        "{\"cmd\":\"benchmark\",\"iterations\":0}\n"
    );
    assert_eq!(command_line(&Command::Dispose), "{\"cmd\":\"dispose\"}\n");
}

#[test]
fn closed_output_is_process_death() {
    assert_eq!(read_reply("").unwrap_err(), SidecarError::ProcessDied);
}

#[test]
fn malformed_reply_is_protocol_error() {
    assert_eq!(
        read_reply("garbage\n").unwrap_err(),
        SidecarError::ProtocolError("garbage\n".to_string())
    );
}

#[test]
fn init_reply_gives_engine_info() {
    let reply = read_reply(
        "{\"ok\":true,\"provider\":\"rocm\",\"device\":\"cuda:0\",\"fp16\":true,\"params\":12345}\n",
    )
    .unwrap();
    assert_eq!(engine_info(&reply).unwrap(), PyTorchInfo {
        provider: "rocm".to_string(),
        device: "cuda:0".to_string(),
        fp16: true,
        params: 12345,
    });
}

#[test]
fn init_reply_defaults() {
    let reply = read_reply("{\"ok\":true,\"fp16\":\"yes\"}").unwrap();
    assert_eq!(engine_info(&reply).unwrap(), PyTorchInfo {
        provider: "pytorch".to_string(),
        device: "unknown".to_string(),
        fp16: false,
        params: 0,
    });
}

#[test]
fn failed_reply_surfaces_error_verbatim() {
    let reply = read_reply("{\"ok\":false,\"error\":\"CUDA out of memory\"}").unwrap();
    assert_eq!(
        engine_info(&reply).unwrap_err(),
        SidecarError::RemoteError("CUDA out of memory".to_string())
    );
    let reply = read_reply("{\"error\":\"x\"}").unwrap();
    assert_eq!(check_reply(&reply), Err(SidecarError::RemoteError("x".to_string())));
    let reply = read_reply("{\"ok\":false}").unwrap();
    assert_eq!(
        inference_result(&reply).unwrap_err(),
        SidecarError::RemoteError("Unknown error".to_string())
    );
}

#[test]
fn infer_reply_splits_into_items() {
    let policy: Vec<f32> = (0..722).map(|i| i as f32).collect();
    let line = format!(
        "{{\"ok\":true,\"policy\":\"{}\",\"value\":\"{}\",\"miscvalue\":\"{}\",\"policy_dims\":[2,361]}}",
        b64(&policy),
        b64(&[0.1, 0.2, 0.7, 0.3, 0.3, 0.4]),
        b64(&[0.5; 20]),
    );
    let result = inference_result(&read_reply(&line).unwrap()).unwrap();
    assert_eq!(result.policy.len(), 722);
    assert_eq!(result.policy_dims, vec![2, 361]);
    assert!(result.ownership.is_none());
    let items = split_batch_outputs(&result, 2, 19);
    assert_eq!(items.len(), 2);
    for (b, item) in items.iter().enumerate() {
        assert_eq!(item.policy.len(), 361);
        assert_eq!(item.policy[0], ((b * 361) as f32).to_bits());
        assert_eq!(item.policy_dims, vec![1, 361]);
        assert_eq!(item.value.len(), 3);
        assert_eq!(item.miscvalue.len(), 10);
        assert!(item.ownership.is_none());
    }
    assert_eq!(items[1].value, vec![0.3f32.to_bits(), 0.3f32.to_bits(), 0.4f32.to_bits()]);
}

#[test]
fn infer_reply_missing_members() {
    let result =
        inference_result(&read_reply("{\"ok\":true,\"policy_dims\":[1,\"x\",362]}").unwrap())
            .unwrap();
    assert!(result.policy.is_empty() && result.value.is_empty() && result.miscvalue.is_empty());
    assert!(result.ownership.is_none());
    assert_eq!(result.policy_dims, vec![1, 362]);
}

#[test]
fn infer_reply_with_bad_tensor() {
    let line = format!("{{\"ok\":true,\"policy\":\"{}\",\"value\":\"AAA=\"}}", b64(&[1.0]));
    assert_eq!(
        inference_result(&read_reply(&line).unwrap()).unwrap_err(),
        SidecarError::DecodeError(DecodeFault::Length)
    );
    let line = "{\"ok\":true,\"ownership\":\"%%%\"}";
    assert_eq!(
        inference_result(&read_reply(line).unwrap()).unwrap_err(),
        SidecarError::DecodeError(DecodeFault::Base64)
    );
}

#[test]
fn script_discovery_order() {
    assert_eq!(locate_script(&vec![false, true, true]), Ok(1));
    assert_eq!(locate_script(&vec![true, true, false]), Ok(0));
    assert_eq!(locate_script(&vec![false, false, false]), Err(SidecarError::NotFound));
    assert_eq!(locate_script(&vec![]), Err(SidecarError::NotFound));
}

#[test]
fn decimal_numbers_in_command_lines() {
    assert_eq!(
        command_line(&Command::Benchmark { iterations: 1234567 }),
        "{\"cmd\":\"benchmark\",\"iterations\":1234567}\n"
    );
    assert_eq!(
        command_line(&Command::Benchmark { iterations: 100 }),
        "{\"cmd\":\"benchmark\",\"iterations\":100}\n"
    );
}

#[test]
fn reply_members_come_from_the_text() {
    let reply = read_reply(
        "{\"ok\":false,\"error\":\"boom\",\"params\":-3,\"device\":7,\"policy_dims\":[4,true,5]}\n",
    )
    .unwrap();
    assert_eq!(reply.ok, Some(false));
    assert_eq!(reply.error.as_deref(), Some("boom"));
    assert_eq!(reply.params, None);
    assert_eq!(reply.device, None);
    assert_eq!(reply.provider, None);
    assert_eq!(reply.policy_dims, Some(vec![Some(4), None, Some(5)]));
}

#[test]
fn json_that_is_not_an_object_has_no_members() {
    let reply = read_reply("[1,2]").unwrap();
    assert_eq!(reply.ok, None);
    assert!(reply.policy_dims.is_none());
    assert_eq!(
        check_reply(&reply),
        Err(SidecarError::RemoteError("Unknown error".to_string()))
    );
}
