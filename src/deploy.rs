use vstd::prelude::*;
use vstd::string::{StringExecFns, StrSliceExecFns};

verus! {

/// Why an environment setting was refused.
#[derive(Debug, Clone, Copy, PartialEq, Eq, Structural)]
pub enum EnvError {
    /// The setting is not of the form `KEY=VALUE`.
    InvalidEnv,
}

impl EnvError {
    pub fn message(&self) -> (r: String)
        ensures
            r@ == "Invalid env specified. Must be in the form of KEY=VALUE"@,
    {
        String::from_str("Invalid env specified. Must be in the form of KEY=VALUE")
    }
}

/// How many times `c` occurs in `s`.
pub open spec fn count_char(s: Seq<char>, c: char) -> nat
    decreases s.len(),
{
    if s.len() == 0 {
        0
    } else {
        count_char(s.drop_last(), c) + if s.last() == c { 1nat } else { 0nat }
    }
}

/// The position of the first `c` in `s`, or -1.
pub open spec fn first_index_of(s: Seq<char>, c: char) -> int
    decreases s.len(),
{
    if s.len() == 0 {
        -1
    } else if count_char(s.drop_last(), c) > 0 {
        first_index_of(s.drop_last(), c)
    } else if s.last() == c {
        s.len() - 1
    } else {
        -1
    }
}

pub open spec fn is_comment(env: Seq<char>) -> bool {
    env.len() > 0 && env[0] == '#'
}

/// The line that a `KEY=VALUE` setting adds: `KEY="VALUE"` and a newline.
pub open spec fn env_line(env: Seq<char>) -> Seq<char> {
    let p = first_index_of(env, '=');
    env.take(p) + "=\""@ + env.skip(p + 1) + "\"\n"@
}

/// Adds one environment setting to the accumulated settings. A line that starts with `#`
/// is a comment and adds nothing; otherwise the setting must hold exactly one `=`.
pub fn accumulate_env(envs: &mut String, env: &str) -> (r: Result<(), EnvError>)
    ensures
        is_comment(env@) ==> r is Ok && final(envs)@ == old(envs)@,
        !is_comment(env@) ==> (r is Ok <==> count_char(env@, '=') == 1),
        !is_comment(env@) && r is Ok ==> final(envs)@ == old(envs)@ + env_line(env@),
        r is Err ==> final(envs)@ == old(envs)@,
{
    let n = env.unicode_len();
    if n > 0 && env.get_char(0) == '#' {
        return Ok(());
    }
    let mut count: usize = 0;
    let mut pos: usize = 0;
    let mut i: usize = 0;
    while i < n
        invariant
            n == env@.len(),
            i <= n,
            count as nat == count_char(env@.take(i as int), '='),
            count <= i,
            count > 0 ==> pos as int == first_index_of(env@.take(i as int), '=') && pos < i,
        decreases n - i,
    {
        let c = env.get_char(i);
        proof {
            assert(env@.take(i + 1).drop_last() =~= env@.take(i as int));
            assert(env@.take(i + 1).last() == env@[i as int]);
        }
        if c == '=' {
            if count == 0 {
                pos = i;
            }
            count = count + 1;
        }
        i = i + 1;
    }
    proof {
        assert(env@.take(n as int) =~= env@);
    }
    if count != 1 {
        return Err(EnvError::InvalidEnv);
    }
    let key = env.substring_char(0, pos);
    let value = env.substring_char(pos + 1, n);
    envs.append(key);
    envs.append("=\"");
    envs.append(value);
    envs.append("\"\n");
    proof {
        assert(env@.subrange(0, pos as int) =~= env@.take(pos as int));
        assert(env@.subrange(pos + 1, n as int) =~= env@.skip(pos + 1));
        assert(final(envs)@ =~= old(envs)@ + env_line(env@));
    }
    Ok(())
}

/// The snake-case form of a text, as `heck` computes it.
pub uninterp spec fn snake_case_of(s: Seq<char>) -> Seq<char>;

/// Relies on `heck::ToSnakeCase::to_snake_case` for `str`: its result depends on the
/// text alone.
#[verifier::external_body]
fn to_snake_case(s: &str) -> (r: String)
    ensures
        r@ == snake_case_of(s@),
{
    heck::ToSnakeCase::to_snake_case(s)
}

/// The instructions that create and attach a Fly.io database for an app and load the
/// model's schema into it, given the database's name.
pub open spec fn fly_db_lines(app: Seq<char>, model: Seq<char>, db: Seq<char>) -> Seq<Seq<char>> {
    seq![
        "\tfly postgres create --name "@ + app + "-db"@,
        "\tfly postgres attach --app "@ + app + " "@ + app + "-db"@,
        "\tIn a separate terminal: fly proxy 54321:5432 -a "@ + app + "-db"@,
        "\texo schema create ../"@ + model + " | psql postgres://"@ + db + ":<APP_DATABASE_PASSWORD>@localhost:54321/"@ + db,
    ]
}

pub open spec fn lines_view(v: Seq<String>) -> Seq<Seq<char>> {
    v.map_values(|s: String| s@)
}

fn concat(parts: &Vec<&str>) -> (r: String)
    ensures
        r@ == parts@.fold_left(Seq::<char>::empty(), |acc: Seq<char>, p: &str| acc + p@),
{
    let mut out = String::new();
    let mut i: usize = 0;
    while i < parts.len()
        invariant
            i <= parts@.len(),
            out@ == parts@.take(i as int).fold_left(Seq::<char>::empty(), |acc: Seq<char>, p: &str| acc + p@),
        decreases parts.len() - i,
    {
        out.append(parts[i]);
        proof {
            assert(parts@.take(i + 1).drop_last() =~= parts@.take(i as int));
        }
        i = i + 1;
    }
    proof {
        assert(parts@.take(parts@.len() as int) =~= parts@);
    }
    out
}

/// The database instructions for an app whose database is named `db_name`.
pub fn fly_db_instructions_for(app_name: &str, model_file: &str, db_name: &str) -> (r: Vec<String>)
    ensures
        lines_view(r@) == fly_db_lines(app_name@, model_file@, db_name@),
{
    let mut lines: Vec<String> = Vec::new();
    let l0 = concat(&vec!["\tfly postgres create --name ", app_name, "-db"]);
    let l1 = concat(&vec!["\tfly postgres attach --app ", app_name, " ", app_name, "-db"]);
    let l2 = concat(&vec!["\tIn a separate terminal: fly proxy 54321:5432 -a ", app_name, "-db"]);
    let l3 = concat(&vec!["\texo schema create ../", model_file, " | psql postgres://", db_name, ":<APP_DATABASE_PASSWORD>@localhost:54321/", db_name]);
    lines.push(l0);
    lines.push(l1);
    lines.push(l2);
    lines.push(l3);
    proof {
        reveal_with_fuel(Seq::fold_left, 7);
        assert(lines_view(lines@) =~= fly_db_lines(app_name@, model_file@, db_name@));
    }
    lines
}

/// The database instructions for an app whose database Fly.io names after the app in
/// snake case.
pub fn fly_db_instructions(app_name: &str, model_file: &str) -> (r: Vec<String>)
    ensures
        lines_view(r@) == fly_db_lines(app_name@, model_file@, snake_case_of(app_name@)),
{
    let db_name = to_snake_case(app_name);
    fly_db_instructions_for(app_name, model_file, db_name.as_str())
}

} // verus!
