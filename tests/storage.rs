use data_pipeline::storage::{Storage, StoragePlatform};
use std::cell::RefCell;

struct Recorder {
    connected: bool,
    fail_init: bool,
    uploaded: RefCell<Vec<String>>,
}

impl Storage for Recorder {
    fn init(&mut self) -> Result<(), String> {
        if self.fail_init {
            return Err("no credentials".to_string());
        }
        self.connected = true;
        Ok(())
    }

    fn upload(&self, filename: String) -> Result<(), String> {
        if !self.connected {
            return Err("not connected".to_string());
        }
        self.uploaded.borrow_mut().push(filename);
        Ok(())
    }
}

#[test]
fn upload_connects_then_uploads() {
    let r = Recorder { connected: false, fail_init: false, uploaded: RefCell::new(Vec::new()) };
    assert_eq!(StoragePlatform::upload(r, "result.csv".to_string()), Ok(()));
}

#[test]
fn upload_stops_when_connection_fails() {
    let r = Recorder { connected: false, fail_init: true, uploaded: RefCell::new(Vec::new()) };
    assert_eq!(
        StoragePlatform::upload(r, "result.csv".to_string()),
        Err("no credentials".to_string())
    );
}
