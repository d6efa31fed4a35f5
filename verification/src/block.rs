pub mod block_id;
