use vstd::prelude::*;

verus! {

/// The folder saves go to: the given one, or `./save_games/`.
pub open spec fn save_folder(save_path: Option<Seq<char>>) -> Seq<char> {
    match save_path {
        Some(p) => p,
        None => "./save_games/"@,
    }
}

/// The folder saves go to: the given one, or `./save_games/`.
pub fn get_save_folder(save_path: &Option<String>) -> (r: String)
    ensures
        r@ == save_folder(match save_path {
            Some(p) => Some(p@),
            None => None,
        }),
{
    match save_path {
        Some(p) => p.clone(),
        None => String::from_str("./save_games/"),
    }
}

/// The file a save named `save_name` goes to: the folder, the name and `.json`.
pub fn get_file_path(save_name: &str, save_path: &Option<String>) -> (r: String)
    ensures
        r@ == save_folder(match save_path {
            Some(p) => Some(p@),
            None => None,
        }) + save_name@ + ".json"@,
{
    let mut path = get_save_folder(save_path);
    path.append(save_name);
    path.append(".json");
    path
}

} // verus!
